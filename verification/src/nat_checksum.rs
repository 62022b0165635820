//! Address translation keeps checksums valid: a frame whose IPv4 header
//! checksum (and UDP checksum, when present) was correct before NAT is
//! still correct after it, in one's-complement arithmetic.

use vstd::prelude::*;
use crate::checksum::{
    checksum_valid, csum_replace4_spec, lemma_replace2_keeps_checksum_valid,
    lemma_replace4_keeps_checksum_valid, lemma_sum16_update, sum16,
};
use crate::common::NATData;
use crate::datapath::{dnat_frame, snat_frame};
use crate::helpers::udp_check_after;
use crate::packet::{
    be16, be32, lemma_be32_halves, lemma_set_be16, lemma_set_be32, set_be16, set_be32,
    IPPROTO_UDP, IP_CHECK, IP_DST, IP_SRC, IP_VIHL, UDP_CHECK, UDP_DST, UDP_SRC,
};

verus! {

/// The ten 16-bit words of an IPv4 header without options.
pub open spec fn ipv4_header_words(data: Seq<u8>) -> Seq<u16> {
    Seq::new(10, |i: int| be16(data, IP_VIHL + 2 * i))
}

/// The 16-bit words of the UDP segment `data[UDP_SRC..end]`, a trailing
/// odd byte padded with zero.
pub open spec fn udp_segment_words(data: Seq<u8>, end: int) -> Seq<u16> {
    Seq::new(
        ((end - UDP_SRC + 1) / 2) as nat,
        |i: int|
            if UDP_SRC + 2 * i + 1 < end {
                be16(data, UDP_SRC + 2 * i)
            } else {
                (data[UDP_SRC + 2 * i] * 0x100) as u16
            },
    )
}

/// The words the UDP checksum covers: the pseudo-header (source and
/// destination address, protocol, UDP length `udp_len`) and the segment.
pub open spec fn udp_checksum_words(data: Seq<u8>, end: int, udp_len: u16) -> Seq<u16> {
    seq![
        be16(data, IP_SRC as int),
        be16(data, IP_SRC + 2),
        be16(data, IP_DST as int),
        be16(data, IP_DST + 2),
        IPPROTO_UDP as u16,
        udp_len,
    ] + udp_segment_words(data, end)
}

/// The bytes of a NAT-rewritten frame: four field writes below offset 42.
proof fn lemma_rewrite_layers(
    data: Seq<u8>,
    ip: u16,
    udp: u16,
    addr_off: int,
    addr: u32,
    port_off: int,
    port: u16,
)
    requires
        data.len() >= 42,
        addr_off == IP_SRC || addr_off == IP_DST,
        port_off == UDP_SRC || port_off == UDP_DST,
    ensures
        ({
            let out = set_be16(
                set_be32(
                    set_be16(set_be16(data, IP_CHECK as int, ip), UDP_CHECK as int, udp),
                    addr_off,
                    addr,
                ),
                port_off,
                port,
            );
            &&& out.len() == data.len()
            &&& be16(out, IP_CHECK as int) == ip
            &&& be16(out, UDP_CHECK as int) == udp
            &&& be16(out, addr_off) == addr / 0x10000
            &&& be16(out, addr_off + 2) == addr % 0x10000
            &&& be16(out, port_off) == port
            &&& forall|j: int|
                0 <= j < out.len() && j != IP_CHECK && j != IP_CHECK + 1 && j != UDP_CHECK && j
                    != UDP_CHECK + 1 && !(addr_off <= j < addr_off + 4) && j != port_off && j
                    != port_off + 1 ==> #[trigger] out[j] == data[j]
        }),
{
    let d1 = set_be16(data, IP_CHECK as int, ip);
    let d2 = set_be16(d1, UDP_CHECK as int, udp);
    let d3 = set_be32(d2, addr_off, addr);
    let d4 = set_be16(d3, port_off, port);
    lemma_set_be16(data, IP_CHECK as int, ip);
    lemma_set_be16(d1, UDP_CHECK as int, udp);
    lemma_set_be32(d2, addr_off, addr);
    lemma_set_be16(d3, port_off, port);
    assert(be16(d1, UDP_CHECK as int) == be16(data, UDP_CHECK as int));
    assert(be16(d2, IP_CHECK as int) == ip);
    assert(be16(d3, IP_CHECK as int) == ip);
    assert(be16(d3, UDP_CHECK as int) == udp);
    assert(be16(d4, IP_CHECK as int) == ip);
    assert(be16(d4, UDP_CHECK as int) == udp);
    assert(be16(d4, addr_off) == be16(d3, addr_off));
    assert(be16(d4, addr_off + 2) == be16(d3, addr_off + 2));
}

/// A translated frame carries the binding: its source (for source NAT) or
/// destination (for destination NAT) address is the binding's, and so is
/// the port when the frame has a UDP checksum; a frame without one keeps
/// its port. The other address and port are untouched.
pub proof fn lemma_nat_frame_fields(data: Seq<u8>, nat_data: NATData)
    requires
        data.len() >= 42,
    ensures
        snat_frame(data, nat_data).len() == data.len(),
        be32(snat_frame(data, nat_data), IP_SRC as int) == nat_data.nat_addr,
        be32(snat_frame(data, nat_data), IP_DST as int) == be32(data, IP_DST as int),
        be16(snat_frame(data, nat_data), UDP_SRC as int) == if be16(data, UDP_CHECK as int) != 0 {
            nat_data.nat_port
        } else {
            be16(data, UDP_SRC as int)
        },
        be16(snat_frame(data, nat_data), UDP_DST as int) == be16(data, UDP_DST as int),
        dnat_frame(data, nat_data).len() == data.len(),
        be32(dnat_frame(data, nat_data), IP_DST as int) == nat_data.nat_addr,
        be32(dnat_frame(data, nat_data), IP_SRC as int) == be32(data, IP_SRC as int),
        be16(dnat_frame(data, nat_data), UDP_DST as int) == if be16(data, UDP_CHECK as int) != 0 {
            nat_data.nat_port
        } else {
            be16(data, UDP_DST as int)
        },
        be16(dnat_frame(data, nat_data), UDP_SRC as int) == be16(data, UDP_SRC as int),
{
    let ip_check = be16(data, IP_CHECK as int);
    let udp_check = be16(data, UDP_CHECK as int);
    let s_addr = be32(data, IP_SRC as int);
    let s_port = be16(data, UDP_SRC as int);
    let d_addr = be32(data, IP_DST as int);
    let d_port = be16(data, UDP_DST as int);
    let s_ip = csum_replace4_spec(ip_check as u32, s_addr, nat_data.nat_addr);
    let s_udp = if udp_check != 0 {
        udp_check_after(udp_check, s_port, nat_data.nat_port, s_addr, nat_data.nat_addr)
    } else {
        0u16
    };
    let s_newport = if udp_check != 0 { nat_data.nat_port } else { s_port };
    let d_ip = csum_replace4_spec(ip_check as u32, d_addr, nat_data.nat_addr);
    let d_udp = if udp_check != 0 {
        udp_check_after(udp_check, d_port, nat_data.nat_port, d_addr, nat_data.nat_addr)
    } else {
        0u16
    };
    let d_newport = if udp_check != 0 { nat_data.nat_port } else { d_port };
    lemma_rewrite_layers(data, s_ip, s_udp, IP_SRC as int, nat_data.nat_addr, UDP_SRC as int, s_newport);
    lemma_rewrite_layers(data, d_ip, d_udp, IP_DST as int, nat_data.nat_addr, UDP_DST as int, d_newport);
    let so = snat_frame(data, nat_data);
    let dout = dnat_frame(data, nat_data);
    lemma_be32_halves(so, IP_SRC as int);
    lemma_be32_halves(so, IP_DST as int);
    lemma_be32_halves(dout, IP_SRC as int);
    lemma_be32_halves(dout, IP_DST as int);
    lemma_be32_halves(data, IP_SRC as int);
    lemma_be32_halves(data, IP_DST as int);
    assert(nat_data.nat_addr == (nat_data.nat_addr / 0x10000) * 0x10000 + nat_data.nat_addr % 0x10000);
    assert forall|j: int| IP_DST <= j < IP_DST + 4 implies so[j] == data[j] by {}
    assert forall|j: int| IP_SRC <= j < IP_SRC + 4 implies dout[j] == data[j] by {}
}

/// Source NAT keeps a valid IPv4 header checksum valid.
pub proof fn lemma_snat_keeps_ipv4_checksum(data: Seq<u8>, nat_data: NATData)
    requires
        data.len() >= 42,
        checksum_valid(ipv4_header_words(data)),
    ensures
        checksum_valid(ipv4_header_words(snat_frame(data, nat_data))),
{
    let w = ipv4_header_words(data);
    let ip_check = be16(data, IP_CHECK as int);
    let udp_check = be16(data, UDP_CHECK as int);
    let addr = be32(data, IP_SRC as int);
    let port = be16(data, UDP_SRC as int);
    let new_ip = csum_replace4_spec(ip_check as u32, addr, nat_data.nat_addr);
    let new_udp = if udp_check != 0 {
        udp_check_after(udp_check, port, nat_data.nat_port, addr, nat_data.nat_addr)
    } else {
        0u16
    };
    let new_port = if udp_check != 0 {
        nat_data.nat_port
    } else {
        port
    };
    let out = snat_frame(data, nat_data);
    lemma_rewrite_layers(data, new_ip, new_udp, IP_SRC as int, nat_data.nat_addr, UDP_SRC as int, new_port);
    lemma_be32_halves(data, IP_SRC as int);
    assert(w[5] == ip_check);
    assert(w[6] * 0x10000 + w[7] == addr);
    lemma_replace4_keeps_checksum_valid(w, 5, 6, nat_data.nat_addr);
    let expected = w.update(6, (nat_data.nat_addr / 0x10000) as u16).update(
        7,
        (nat_data.nat_addr % 0x10000) as u16,
    ).update(5, new_ip);
    assert forall|i: int| 0 <= i < 10 implies #[trigger] ipv4_header_words(out)[i] == expected[i] by {
        if i != 5 && i != 6 && i != 7 {
            assert(out[IP_VIHL + 2 * i] == data[IP_VIHL + 2 * i]);
            assert(out[IP_VIHL + 2 * i + 1] == data[IP_VIHL + 2 * i + 1]);
        }
    }
    assert(ipv4_header_words(out) =~= expected);
}

/// Destination NAT keeps a valid IPv4 header checksum valid.
pub proof fn lemma_dnat_keeps_ipv4_checksum(data: Seq<u8>, nat_data: NATData)
    requires
        data.len() >= 42,
        checksum_valid(ipv4_header_words(data)),
    ensures
        checksum_valid(ipv4_header_words(dnat_frame(data, nat_data))),
{
    let w = ipv4_header_words(data);
    let ip_check = be16(data, IP_CHECK as int);
    let udp_check = be16(data, UDP_CHECK as int);
    let addr = be32(data, IP_DST as int);
    let port = be16(data, UDP_DST as int);
    let new_ip = csum_replace4_spec(ip_check as u32, addr, nat_data.nat_addr);
    let new_udp = if udp_check != 0 {
        udp_check_after(udp_check, port, nat_data.nat_port, addr, nat_data.nat_addr)
    } else {
        0u16
    };
    let new_port = if udp_check != 0 {
        nat_data.nat_port
    } else {
        port
    };
    let out = dnat_frame(data, nat_data);
    lemma_rewrite_layers(data, new_ip, new_udp, IP_DST as int, nat_data.nat_addr, UDP_DST as int, new_port);
    lemma_be32_halves(data, IP_DST as int);
    assert(w[5] == ip_check);
    assert(w[8] * 0x10000 + w[9] == addr);
    lemma_replace4_keeps_checksum_valid(w, 5, 8, nat_data.nat_addr);
    let expected = w.update(8, (nat_data.nat_addr / 0x10000) as u16).update(
        9,
        (nat_data.nat_addr % 0x10000) as u16,
    ).update(5, new_ip);
    assert forall|i: int| 0 <= i < 10 implies #[trigger] ipv4_header_words(out)[i] == expected[i] by {
        if i != 5 && i != 8 && i != 9 {
            assert(out[IP_VIHL + 2 * i] == data[IP_VIHL + 2 * i]);
            assert(out[IP_VIHL + 2 * i + 1] == data[IP_VIHL + 2 * i + 1]);
        }
    }
    assert(ipv4_header_words(out) =~= expected);
}

/// Source NAT keeps a valid UDP checksum valid: `end` is where the UDP
/// segment ends in the frame and `udp_len` the length in the pseudo-header.
/// A frame without UDP checksum (zero) keeps none.
pub proof fn lemma_snat_keeps_udp_checksum(data: Seq<u8>, nat_data: NATData, end: int, udp_len: u16)
    requires
        42 <= end <= data.len(),
        be16(data, UDP_CHECK as int) != 0,
        checksum_valid(udp_checksum_words(data, end, udp_len)),
    ensures
        checksum_valid(udp_checksum_words(snat_frame(data, nat_data), end, udp_len)),
        be16(snat_frame(data, nat_data), UDP_CHECK as int) != 0,
{
    lemma_nat_keeps_udp_checksum(data, nat_data, end, udp_len, true);
}

/// Destination NAT keeps a valid UDP checksum valid.
pub proof fn lemma_dnat_keeps_udp_checksum(data: Seq<u8>, nat_data: NATData, end: int, udp_len: u16)
    requires
        42 <= end <= data.len(),
        be16(data, UDP_CHECK as int) != 0,
        checksum_valid(udp_checksum_words(data, end, udp_len)),
    ensures
        checksum_valid(udp_checksum_words(dnat_frame(data, nat_data), end, udp_len)),
        be16(dnat_frame(data, nat_data), UDP_CHECK as int) != 0,
{
    lemma_nat_keeps_udp_checksum(data, nat_data, end, udp_len, false);
}

proof fn lemma_nat_keeps_udp_checksum(
    data: Seq<u8>,
    nat_data: NATData,
    end: int,
    udp_len: u16,
    source: bool,
)
    requires
        42 <= end <= data.len(),
        be16(data, UDP_CHECK as int) != 0,
        checksum_valid(udp_checksum_words(data, end, udp_len)),
    ensures
        source ==> checksum_valid(udp_checksum_words(snat_frame(data, nat_data), end, udp_len))
            && be16(snat_frame(data, nat_data), UDP_CHECK as int) != 0,
        !source ==> checksum_valid(udp_checksum_words(dnat_frame(data, nat_data), end, udp_len))
            && be16(dnat_frame(data, nat_data), UDP_CHECK as int) != 0,
{
    let addr_off: int = if source { IP_SRC as int } else { IP_DST as int };
    let port_off: int = if source { UDP_SRC as int } else { UDP_DST as int };
    let aw: int = if source { 0 } else { 2 };
    let pw: int = if source { 6 } else { 7 };
    let u = udp_checksum_words(data, end, udp_len);
    let ip_check = be16(data, IP_CHECK as int);
    let udp_check = be16(data, UDP_CHECK as int);
    let addr = be32(data, addr_off);
    let port = be16(data, port_off);
    let new_ip = csum_replace4_spec(ip_check as u32, addr, nat_data.nat_addr);
    let c1 = csum_replace4_spec(udp_check as u32, port as u32, nat_data.nat_port as u32);
    let c2 = csum_replace4_spec(c1 as u32, addr, nat_data.nat_addr);
    let new_udp = udp_check_after(udp_check, port, nat_data.nat_port, addr, nat_data.nat_addr);
    let out = if source {
        snat_frame(data, nat_data)
    } else {
        dnat_frame(data, nat_data)
    };
    lemma_rewrite_layers(data, new_ip, new_udp, addr_off, nat_data.nat_addr, port_off, nat_data.nat_port);
    lemma_be32_halves(data, addr_off);
    assert(u[pw] == port);
    assert(u[9] == udp_check);
    lemma_replace2_keeps_checksum_valid(u, 9, pw, nat_data.nat_port);
    let u1 = u.update(pw, nat_data.nat_port).update(9, c1);
    assert(u1[aw] * 0x10000 + u1[aw + 1] == addr);
    lemma_replace4_keeps_checksum_valid(u1, 9, aw, nat_data.nat_addr);
    let u2 = u1.update(aw, (nat_data.nat_addr / 0x10000) as u16).update(
        aw + 1,
        (nat_data.nat_addr % 0x10000) as u16,
    ).update(9, c2);
    let u3 = u2.update(9, new_udp);
    lemma_sum16_update(u2, 9, new_udp);
    assert(checksum_valid(u3));
    let w = udp_checksum_words(out, end, udp_len);
    assert forall|i: int| 0 <= i < u3.len() implies #[trigger] w[i] == u3[i] by {
        if i >= 6 {
            let p = UDP_SRC + 2 * (i - 6);
            if p != port_off && p != UDP_CHECK {
                assert(out[p] == data[p]);
                if p + 1 < end {
                    assert(out[p + 1] == data[p + 1]);
                }
            }
        } else if i < 4 && i != aw && i != aw + 1 {
            let p = IP_SRC + 2 * i;
            assert(out[p] == data[p]);
            assert(out[p + 1] == data[p + 1]);
        }
    }
    assert(w =~= u3);
}

} // verus!
