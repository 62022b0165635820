//! Parsing dotted-quad IPv4 addresses as std does: four decimal octets
//! of one to three digits, no leading zeros, each at most 255.

use vstd::prelude::*;
use crate::text::{decimal, digit_char, digit_value, ipv4_text, is_digit};

verus! {

/// The value of a run of decimal digits.
pub open spec fn digits_value(ds: Seq<char>) -> int
    decreases ds.len(),
{
    if ds.len() == 0 {
        0
    } else {
        digits_value(ds.drop_last()) * 10 + digit_value(ds.last())
    }
}

/// One to three digits, no leading zero, value at most 255.
pub open spec fn canonical_octet(ds: Seq<char>) -> bool {
    &&& 1 <= ds.len() <= 3
    &&& forall|i: int| 0 <= i < ds.len() ==> is_digit(#[trigger] ds[i])
    &&& (ds.len() == 1 || ds[0] != '0')
    &&& digits_value(ds) <= 255
}

/// The end of the run of digits starting at `pos`.
pub open spec fn run_end(cs: Seq<char>, pos: int) -> int
    decreases cs.len() - pos,
{
    if 0 <= pos < cs.len() && is_digit(cs[pos]) {
        run_end(cs, pos + 1)
    } else {
        pos
    }
}

/// The octet read at `pos` and where it ends.
pub open spec fn octet_at(cs: Seq<char>, pos: int) -> Option<(nat, int)> {
    let e = run_end(cs, pos);
    let ds = cs.subrange(pos, e);
    if canonical_octet(ds) {
        Some((digits_value(ds) as nat, e))
    } else {
        None
    }
}

/// Reading octets `k..4` from `pos`, the earlier ones accumulated in `acc`.
pub open spec fn parse_quad(cs: Seq<char>, pos: int, k: nat, acc: nat) -> Option<nat>
    decreases 4 - k,
{
    if k >= 4 {
        None
    } else {
        match octet_at(cs, pos) {
            None => None,
            Some((v, e)) => if k == 3 {
                if e == cs.len() {
                    Some(acc * 256 + v)
                } else {
                    None
                }
            } else if e < cs.len() && cs[e] == '.' {
                parse_quad(cs, e + 1, k + 1, acc * 256 + v)
            } else {
                None
            },
        }
    }
}

/// std's `Ipv4Addr` parsing of `cs`.
pub open spec fn parse_ipv4_spec(cs: Seq<char>) -> Option<u32> {
    match parse_quad(cs, 0, 0, 0) {
        Some(v) => Some(v as u32),
        None => None,
    }
}

proof fn lemma_run_end_bounds(cs: Seq<char>, pos: int)
    requires
        0 <= pos <= cs.len(),
    ensures
        pos <= run_end(cs, pos) <= cs.len(),
        forall|i: int| pos <= i < run_end(cs, pos) ==> is_digit(#[trigger] cs[i]),
        run_end(cs, pos) < cs.len() ==> !is_digit(cs[run_end(cs, pos)]),
    decreases cs.len() - pos,
{
    if pos < cs.len() && is_digit(cs[pos]) {
        lemma_run_end_bounds(cs, pos + 1);
    }
}

proof fn lemma_run_end_of(cs: Seq<char>, pos: int, len: int)
    requires
        0 <= pos,
        0 <= len,
        pos + len <= cs.len(),
        forall|i: int| pos <= i < pos + len ==> is_digit(#[trigger] cs[i]),
        pos + len == cs.len() || !is_digit(cs[pos + len]),
    ensures
        run_end(cs, pos) == pos + len,
    decreases len,
{
    if len > 0 {
        lemma_run_end_of(cs, pos + 1, len - 1);
    }
}

proof fn lemma_digit_roundtrip(c: char)
    requires
        is_digit(c),
    ensures
        digit_char(digit_value(c)) == c,
        0 <= digit_value(c) < 10,
{
}

/// A canonical octet is the decimal text of its value.
proof fn lemma_canonical_is_decimal(ds: Seq<char>)
    requires
        canonical_octet(ds),
    ensures
        decimal(digits_value(ds) as nat) == ds,
{
    reveal_with_fuel(digits_value, 4);
    reveal_with_fuel(decimal, 4);
    let n = ds.len();
    lemma_digit_roundtrip(ds[0]);
    if n == 1 {
        assert(ds.drop_last() =~= Seq::<char>::empty());
        assert(decimal(digits_value(ds) as nat) =~= ds);
    } else if n == 2 {
        lemma_digit_roundtrip(ds[1]);
        let p = ds.drop_last();
        assert(p.drop_last() =~= Seq::<char>::empty());
        let v = digits_value(ds);
        assert(v == digit_value(ds[0]) * 10 + digit_value(ds[1]));
        assert(v / 10 == digit_value(ds[0]));
        assert(v % 10 == digit_value(ds[1]));
        assert(decimal(v as nat) =~= ds);
    } else {
        lemma_digit_roundtrip(ds[1]);
        lemma_digit_roundtrip(ds[2]);
        let p = ds.drop_last();
        let q = p.drop_last();
        assert(q.drop_last() =~= Seq::<char>::empty());
        let v = digits_value(ds);
        let w = digits_value(p);
        assert(w == digit_value(ds[0]) * 10 + digit_value(ds[1]));
        assert(v == w * 10 + digit_value(ds[2]));
        assert(v / 10 == w);
        assert(v % 10 == digit_value(ds[2]));
        assert(w / 10 == digit_value(ds[0]));
        assert(w % 10 == digit_value(ds[1]));
        assert(decimal(w as nat) =~= p);
        assert(decimal(v as nat) =~= ds);
    }
}

/// The decimal text of a byte value is a canonical octet of that value.
proof fn lemma_decimal_is_canonical(n: nat)
    requires
        n <= 255,
    ensures
        canonical_octet(decimal(n)),
        digits_value(decimal(n)) == n,
{
    reveal_with_fuel(digits_value, 4);
    reveal_with_fuel(decimal, 4);
    let d = decimal(n);
    if n < 10 {
        assert(d.drop_last() =~= Seq::<char>::empty());
    } else if n < 100 {
        let p = decimal(n / 10);
        assert(p.drop_last() =~= Seq::<char>::empty());
        assert(d.drop_last() =~= p);
    } else {
        let p = decimal(n / 10);
        let q = decimal(n / 10 / 10);
        assert(q.drop_last() =~= Seq::<char>::empty());
        assert(p.drop_last() =~= q);
        assert(d.drop_last() =~= p);
        assert(n / 10 / 10 >= 1);
    }
}

proof fn lemma_digits_value_nonneg(ds: Seq<char>)
    requires
        forall|i: int| 0 <= i < ds.len() ==> is_digit(#[trigger] ds[i]),
    ensures
        0 <= digits_value(ds),
    decreases ds.len(),
{
    if ds.len() > 0 {
        let p = ds.drop_last();
        assert forall|i: int| 0 <= i < p.len() implies is_digit(#[trigger] p[i]) by {
            assert(p[i] == ds[i]);
        }
        lemma_digits_value_nonneg(p);
    }
}

proof fn lemma_u32_bytes(ip: u32)
    ensures
        (((ip / 0x1000000) * 256 + (ip / 0x10000) % 0x100) * 256 + (ip / 0x100) % 0x100) * 256 + ip
            % 0x100 == ip,
{
    assert((((ip / 0x1000000) * 256 + (ip / 0x10000) % 0x100) * 256 + (ip / 0x100) % 0x100) * 256
        + ip % 0x100 == ip) by (bit_vector);
}

proof fn lemma_compose_bytes(a: u32, b: u32, c: u32, d: u32)
    requires
        a < 256,
        b < 256,
        c < 256,
        d < 256,
    ensures
        ({
            let ip = ((a * 256 + b) * 256 + c) * 256 + d;
            &&& ip <= u32::MAX
            &&& ip / 0x1000000 == a
            &&& (ip / 0x10000) % 0x100 == b
            &&& (ip / 0x100) % 0x100 == c
            &&& ip % 0x100 == d
        }),
{
    assert({
        let ip = ((a * 256 + b) * 256 + c) * 256 + d;
        &&& ip <= u32::MAX
        &&& ip / 0x1000000 == a
        &&& (ip / 0x10000) % 0x100 == b
        &&& (ip / 0x100) % 0x100 == c
        &&& ip % 0x100 == d
    }) by (nonlinear_arith)
        requires
            a < 256,
            b < 256,
            c < 256,
            d < 256,
    ;
}

/// The dotted-quad text of an address parses back to it.
pub proof fn lemma_ipv4_text_parses(ip: u32)
    ensures
        parse_ipv4_spec(ipv4_text(ip)) == Some(ip),
{
    reveal_with_fuel(parse_quad, 5);
    let a = ip as nat / 0x1000000;
    let b = (ip as nat / 0x10000) % 0x100;
    let c = (ip as nat / 0x100) % 0x100;
    let d = ip as nat % 0x100;
    lemma_u32_bytes(ip);
    lemma_decimal_is_canonical(a);
    lemma_decimal_is_canonical(b);
    lemma_decimal_is_canonical(c);
    lemma_decimal_is_canonical(d);
    let da = decimal(a);
    let db = decimal(b);
    let dc = decimal(c);
    let dd = decimal(d);
    let cs = ipv4_text(ip);
    let p1 = da.len() as int;
    let p2 = p1 + 1 + db.len();
    let p3 = p2 + 1 + dc.len();
    let p4 = p3 + 1 + dd.len();
    assert(cs =~= da + seq!['.'] + db + seq!['.'] + dc + seq!['.'] + dd);
    assert(cs.len() == p4);
    assert(cs.subrange(0, p1) =~= da);
    assert(cs.subrange(p1 + 1, p2) =~= db);
    assert(cs.subrange(p2 + 1, p3) =~= dc);
    assert(cs.subrange(p3 + 1, p4) =~= dd);
    assert(cs[p1] == '.');
    assert(cs[p2] == '.');
    assert(cs[p3] == '.');
    assert forall|i: int| 0 <= i < p1 implies is_digit(#[trigger] cs[i]) by {
        assert(cs[i] == da[i]);
    }
    assert forall|i: int| p1 + 1 <= i < p2 implies is_digit(#[trigger] cs[i]) by {
        assert(cs[i] == db[i - p1 - 1]);
    }
    assert forall|i: int| p2 + 1 <= i < p3 implies is_digit(#[trigger] cs[i]) by {
        assert(cs[i] == dc[i - p2 - 1]);
    }
    assert forall|i: int| p3 + 1 <= i < p4 implies is_digit(#[trigger] cs[i]) by {
        assert(cs[i] == dd[i - p3 - 1]);
    }
    lemma_run_end_of(cs, 0, p1);
    lemma_run_end_of(cs, p1 + 1, db.len() as int);
    lemma_run_end_of(cs, p2 + 1, dc.len() as int);
    lemma_run_end_of(cs, p3 + 1, dd.len() as int);
    assert(octet_at(cs, 0) == Some((a, p1)));
    assert(octet_at(cs, p1 + 1) == Some((b, p2)));
    assert(octet_at(cs, p2 + 1) == Some((c, p3)));
    assert(octet_at(cs, p3 + 1) == Some((d, p4)));
    assert(parse_quad(cs, p3 + 1, 3, (a * 256 + b) * 256 + c) == Some(((a * 256 + b) * 256 + c) * 256 + d));
    assert(parse_quad(cs, 0, 0, 0) == Some(((a * 256 + b) * 256 + c) * 256 + d));
}

/// Whatever parses is the dotted-quad text of the address it gives.
#[verifier::spinoff_prover]
#[verifier::rlimit(40)]
pub proof fn lemma_ipv4_parse_sound(cs: Seq<char>)
    requires
        parse_ipv4_spec(cs) is Some,
    ensures
        ipv4_text(parse_ipv4_spec(cs)->0) == cs,
{
    reveal_with_fuel(parse_quad, 5);
    lemma_run_end_bounds(cs, 0);
    let (a, p1) = octet_at(cs, 0)->0;
    assert(p1 < cs.len() && cs[p1] == '.');
    lemma_run_end_bounds(cs, p1 + 1);
    let (b, p2) = octet_at(cs, p1 + 1)->0;
    assert(p2 < cs.len() && cs[p2] == '.');
    lemma_run_end_bounds(cs, p2 + 1);
    let (c, p3) = octet_at(cs, p2 + 1)->0;
    assert(p3 < cs.len() && cs[p3] == '.');
    lemma_run_end_bounds(cs, p3 + 1);
    let (d, p4) = octet_at(cs, p3 + 1)->0;
    assert(p4 == cs.len());
    let da = cs.subrange(0, p1);
    let db = cs.subrange(p1 + 1, p2);
    let dc = cs.subrange(p2 + 1, p3);
    let dd = cs.subrange(p3 + 1, p4);
    lemma_canonical_is_decimal(da);
    lemma_canonical_is_decimal(db);
    lemma_canonical_is_decimal(dc);
    lemma_canonical_is_decimal(dd);
    lemma_digits_value_nonneg(da);
    lemma_digits_value_nonneg(db);
    lemma_digits_value_nonneg(dc);
    lemma_digits_value_nonneg(dd);
    assert(canonical_octet(da) && a == digits_value(da));
    assert(canonical_octet(db) && b == digits_value(db));
    assert(canonical_octet(dc) && c == digits_value(dc));
    assert(canonical_octet(dd) && d == digits_value(dd));
    lemma_compose_bytes(a as u32, b as u32, c as u32, d as u32);
    let ip = (((a * 256 + b) * 256 + c) * 256 + d) as u32;
    assert(parse_ipv4_spec(cs) == Some(ip));
    assert(ip as nat / 0x1000000 == a);
    assert((ip as nat / 0x10000) % 0x100 == b);
    assert((ip as nat / 0x100) % 0x100 == c);
    assert(ip as nat % 0x100 == d);
    assert(ipv4_text(ip) =~= da + seq!['.'] + db + seq!['.'] + dc + seq!['.'] + dd);
    assert(cs =~= da + seq!['.'] + db + seq!['.'] + dc + seq!['.'] + dd);
}

/// Bound on an address prefix of `k` octets.
pub open spec fn quad_bound(k: nat) -> nat {
    if k == 0 {
        1
    } else if k == 1 {
        256
    } else if k == 2 {
        65536
    } else {
        16777216
    }
}

/// Bound on a run of `k` digits.
pub open spec fn digits_bound(k: nat) -> nat {
    if k == 0 {
        1
    } else if k == 1 {
        10
    } else if k == 2 {
        100
    } else {
        1000
    }
}

/// Parses a dotted-quad IPv4 address as std's `Ipv4Addr::from_str` does.
pub fn parse_ipv4(cs: &Vec<char>) -> (res: Option<u32>)
    ensures
        res == parse_ipv4_spec(cs@),
{
    let mut pos: usize = 0;
    let mut k: usize = 0;
    let mut acc: u32 = 0;
    while k < 4
        invariant
            k <= 3,
            pos <= cs.len(),
            acc < quad_bound(k as nat),
            parse_ipv4_spec(cs@) == match parse_quad(cs@, pos as int, k as nat, acc as nat) {
                Some(v) => Some(v as u32),
                None => None::<u32>,
            },
        decreases 4 - k,
    {
        let start = pos;
        let mut end = pos;
        while end < cs.len() && '0' <= cs[end] && cs[end] <= '9'
            invariant
                start <= end <= cs.len(),
                run_end(cs@, start as int) == run_end(cs@, end as int),
                forall|j: int| start <= j < end ==> is_digit(#[trigger] cs@[j]),
            decreases cs.len() - end,
        {
            end = end + 1;
        }
        assert(run_end(cs@, end as int) == end);
        let len = end - start;
        if len < 1 || len > 3 || (len > 1 && cs[start] == '0') {
            return None;
        }
        let mut v: u32 = 0;
        let mut i = start;
        while i < end
            invariant
                start <= i <= end <= cs.len(),
                end - start <= 3,
                forall|j: int| start <= j < end ==> is_digit(#[trigger] cs@[j]),
                v == digits_value(cs@.subrange(start as int, i as int)),
                v < digits_bound((i - start) as nat),
            decreases end - i,
        {
            assert(cs@.subrange(start as int, i + 1).drop_last() =~= cs@.subrange(
                start as int,
                i as int,
            ));
            assert(is_digit(cs@[i as int]));
            v = v * 10 + (cs[i] as u32 - 48);
            i = i + 1;
        }
        if v > 255 {
            return None;
        }
        acc = acc * 256 + v;
        if k == 3 {
            if end == cs.len() {
                return Some(acc);
            }
            return None;
        }
        if end >= cs.len() || cs[end] != '.' {
            return None;
        }
        pos = end + 1;
        k = k + 1;
    }
    None
}

} // verus!
