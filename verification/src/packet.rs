//! Layout of an Ethernet / IPv4 / UDP frame, and big-endian field access.

use vstd::prelude::*;

verus! {

pub const ETH_HDR_LEN: usize = 14;

pub const IPV4_HDR_LEN: usize = 20;

pub const UDP_HDR_LEN: usize = 8;

/// Offsets of the fields the data path reads or writes.
pub const ETH_DST: usize = 0;

pub const ETH_SRC: usize = 6;

pub const ETH_TYPE: usize = 12;

pub const IP_VIHL: usize = 14;

pub const IP_TOT_LEN: usize = 16;

pub const IP_FRAGS: usize = 20;

pub const IP_PROTO: usize = 23;

pub const IP_CHECK: usize = 24;

pub const IP_SRC: usize = 26;

pub const IP_DST: usize = 30;

pub const UDP_SRC: usize = 34;

pub const UDP_DST: usize = 36;

pub const UDP_CHECK: usize = 40;

/// EtherType of IPv4.
pub const ETH_P_IP: u16 = 0x0800;

pub const IPPROTO_ICMP: u8 = 1;

pub const IPPROTO_TCP: u8 = 6;

pub const IPPROTO_UDP: u8 = 17;

/// "More fragments" flag and fragment offset mask of the IPv4 header.
pub const IP_MF: u16 = 0x2000;

pub const IP_OFFSET: u16 = 0x1FFF;

/// The big-endian 16-bit value at `i`.
pub open spec fn be16(s: Seq<u8>, i: int) -> u16 {
    (s[i] * 0x100 + s[i + 1]) as u16
}

/// The big-endian 32-bit value at `i`.
pub open spec fn be32(s: Seq<u8>, i: int) -> u32 {
    (s[i] * 0x1000000 + s[i + 1] * 0x10000 + s[i + 2] * 0x100 + s[i + 3]) as u32
}

/// `s` with `v` stored big-endian at `i`.
pub open spec fn set_be16(s: Seq<u8>, i: int, v: u16) -> Seq<u8> {
    s.update(i, (v / 0x100) as u8).update(i + 1, (v % 0x100) as u8)
}

/// `s` with `v` stored big-endian at `i`.
pub open spec fn set_be32(s: Seq<u8>, i: int, v: u32) -> Seq<u8> {
    s.update(i, (v / 0x1000000) as u8).update(i + 1, ((v / 0x10000) % 0x100) as u8).update(
        i + 2,
        ((v / 0x100) % 0x100) as u8,
    ).update(i + 3, (v % 0x100) as u8)
}

/// The six bytes at `i`.
pub open spec fn mac_at(s: Seq<u8>, i: int) -> Seq<u8> {
    s.subrange(i, i + 6)
}

/// The array holding the first six bytes of `s`.
pub open spec fn mac_array(s: Seq<u8>) -> [u8; 6] {
    let a0 = vstd::array::spec_array_fill_for_copy_type::<u8, 6>(0u8);
    let a1 = vstd::array::spec_array_update(a0, 0, s[0]);
    let a2 = vstd::array::spec_array_update(a1, 1, s[1]);
    let a3 = vstd::array::spec_array_update(a2, 2, s[2]);
    let a4 = vstd::array::spec_array_update(a3, 3, s[3]);
    let a5 = vstd::array::spec_array_update(a4, 4, s[4]);
    vstd::array::spec_array_update(a5, 5, s[5])
}

pub proof fn lemma_mac_array(s: Seq<u8>, m: [u8; 6])
    requires
        s.len() == 6,
        m@ == s,
    ensures
        mac_array(s) == m,
        mac_array(s)@ == s,
{
    broadcast use vstd::array::group_array_axioms;

    let a0 = vstd::array::spec_array_fill_for_copy_type::<u8, 6>(0u8);
    assert(a0@.len() == 6);
    assert(mac_array(s)@ =~= s);
    assert(mac_array(s) =~= m);
}

/// `s` with the six bytes at `i` replaced by `m`.
pub open spec fn set_mac(s: Seq<u8>, i: int, m: Seq<u8>) -> Seq<u8> {
    s.subrange(0, i) + m + s.subrange(i + 6, s.len() as int)
}

pub fn read_be16(data: &Vec<u8>, i: usize) -> (res: u16)
    requires
        i + 1 < data.len(),
    ensures
        res == be16(data@, i as int),
{
    (data[i] as u16) * 0x100 + data[i + 1] as u16
}

pub fn read_be32(data: &Vec<u8>, i: usize) -> (res: u32)
    requires
        i + 3 < data.len(),
    ensures
        res == be32(data@, i as int),
{
    (data[i] as u32) * 0x1000000 + (data[i + 1] as u32) * 0x10000 + (data[i + 2] as u32) * 0x100
        + data[i + 3] as u32
}

pub fn write_be16(data: &mut Vec<u8>, i: usize, v: u16)
    requires
        i + 1 < old(data).len(),
    ensures
        final(data)@ == set_be16(old(data)@, i as int, v),
{
    data.set(i, (v / 0x100) as u8);
    data.set(i + 1, (v % 0x100) as u8);
}

pub fn write_be32(data: &mut Vec<u8>, i: usize, v: u32)
    requires
        i + 3 < old(data).len(),
    ensures
        final(data)@ == set_be32(old(data)@, i as int, v),
{
    data.set(i, (v / 0x1000000) as u8);
    data.set(i + 1, ((v / 0x10000) % 0x100) as u8);
    data.set(i + 2, ((v / 0x100) % 0x100) as u8);
    data.set(i + 3, (v % 0x100) as u8);
}

pub fn read_mac(data: &Vec<u8>, i: usize) -> (res: [u8; 6])
    requires
        i + 6 <= data.len(),
    ensures
        res@ == mac_at(data@, i as int),
        res == mac_array(mac_at(data@, i as int)),
{
    let res = [data[i], data[i + 1], data[i + 2], data[i + 3], data[i + 4], data[i + 5]];
    assert(res@ =~= mac_at(data@, i as int));
    proof {
        lemma_mac_array(mac_at(data@, i as int), res);
    }
    res
}

pub fn write_mac(data: &mut Vec<u8>, i: usize, m: &[u8; 6])
    requires
        i + 6 <= old(data).len(),
    ensures
        final(data)@ == set_mac(old(data)@, i as int, m@),
{
    let mut k: usize = 0;
    while k < 6
        invariant
            0 <= k <= 6,
            i + 6 <= data.len(),
            data@.len() == old(data)@.len(),
            forall|j: int| 0 <= j < i ==> data@[j] == old(data)@[j],
            forall|j: int| i + 6 <= j < data@.len() ==> data@[j] == old(data)@[j],
            forall|j: int| i <= j < i + k ==> data@[j] == m@[j - i],
            forall|j: int| i + k <= j < i + 6 ==> data@[j] == old(data)@[j],
        decreases 6 - k,
    {
        data.set(i + k, m[k]);
        k = k + 1;
    }
    assert(data@ =~= set_mac(old(data)@, i as int, m@));
}

pub proof fn lemma_set_be16(s: Seq<u8>, i: int, v: u16)
    requires
        0 <= i,
        i + 1 < s.len(),
    ensures
        set_be16(s, i, v).len() == s.len(),
        be16(set_be16(s, i, v), i) == v,
        forall|j: int|
            0 <= j && j + 1 < s.len() && (j + 1 < i || j > i + 1) ==> #[trigger] be16(
                set_be16(s, i, v),
                j,
            ) == be16(s, j),
        forall|j: int|
            0 <= j && j + 3 < s.len() && (j + 3 < i || j > i + 1) ==> #[trigger] be32(
                set_be16(s, i, v),
                j,
            ) == be32(s, j),
        forall|j: int| 0 <= j < s.len() && j != i && j != i + 1 ==> #[trigger] set_be16(s, i, v)[j] == s[j],
{
}

proof fn lemma_u32_halves(v: u32)
    ensures
        (v / 0x1000000) * 0x100 + (v / 0x10000) % 0x100 == v / 0x10000,
        ((v / 0x100) % 0x100) * 0x100 + v % 0x100 == v % 0x10000,
{
    assert((v / 0x1000000) * 0x100 + (v / 0x10000) % 0x100 == v / 0x10000) by (bit_vector);
    assert(((v / 0x100) % 0x100) * 0x100 + v % 0x100 == v % 0x10000) by (bit_vector);
}

pub proof fn lemma_set_be32(s: Seq<u8>, i: int, v: u32)
    requires
        0 <= i,
        i + 3 < s.len(),
    ensures
        set_be32(s, i, v).len() == s.len(),
        be16(set_be32(s, i, v), i) == v / 0x10000,
        be16(set_be32(s, i, v), i + 2) == v % 0x10000,
        be32(set_be32(s, i, v), i) == v,
        forall|j: int|
            0 <= j && j + 1 < s.len() && (j + 1 < i || j > i + 3) ==> #[trigger] be16(
                set_be32(s, i, v),
                j,
            ) == be16(s, j),
        forall|j: int| 0 <= j < s.len() && (j < i || j > i + 3) ==> #[trigger] set_be32(s, i, v)[j] == s[j],
{
    lemma_u32_halves(v);
    assert(v == (v / 0x10000) * 0x10000 + v % 0x10000);
}

pub proof fn lemma_be32_halves(s: Seq<u8>, i: int)
    requires
        0 <= i,
        i + 3 < s.len(),
    ensures
        be32(s, i) == be16(s, i) * 0x10000 + be16(s, i + 2),
{
}

} // verus!
