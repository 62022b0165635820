//! Decimal and dotted-quad text: the formatting used in messages and
//! iptables arguments, and std-compatible parsing of unsigned integers.

use vstd::prelude::*;
use vstd::string::{StrSliceExecFns, StringExecFns};

verus! {

/// `String::push`: appends one character.
#[verifier::external_body]
pub(crate) fn push_char(s: &mut String, c: char)
    ensures
        final(s)@ == old(s)@.push(c),
{
    s.push(c);
}

/// Whether `c` has the Unicode `White_Space` property, which is what
/// `char::is_whitespace` decides: U+0009 to U+000D, U+0020, U+0085, U+00A0,
/// U+1680, U+2000 to U+200A, U+2028, U+2029, U+202F, U+205F and U+3000.
pub open spec fn is_white_space(c: char) -> bool {
    let u = c as u32;
    ||| 0x09 <= u && u <= 0x0d
    ||| u == 0x20
    ||| u == 0x85
    ||| u == 0xa0
    ||| u == 0x1680
    ||| 0x2000 <= u && u <= 0x200a
    ||| u == 0x2028
    ||| u == 0x2029
    ||| u == 0x202f
    ||| u == 0x205f
    ||| u == 0x3000
}

/// Whether `c` is white space, as `char::is_whitespace` decides.
fn char_is_whitespace(c: char) -> (res: bool)
    ensures
        res == is_white_space(c),
{
    let u = c as u32;
    (0x09 <= u && u <= 0x0d) || u == 0x20 || u == 0x85 || u == 0xa0 || u == 0x1680 || (0x2000 <= u
        && u <= 0x200a) || u == 0x2028 || u == 0x2029 || u == 0x202f || u == 0x205f || u == 0x3000
}

/// `cs` without leading white space.
pub open spec fn trim_start_spec(cs: Seq<char>) -> Seq<char>
    decreases cs.len(),
{
    if cs.len() > 0 && is_white_space(cs[0]) {
        trim_start_spec(cs.drop_first())
    } else {
        cs
    }
}

/// `cs` without trailing white space.
pub open spec fn trim_end_spec(cs: Seq<char>) -> Seq<char>
    decreases cs.len(),
{
    if cs.len() > 0 && is_white_space(cs.last()) {
        trim_end_spec(cs.drop_last())
    } else {
        cs
    }
}

/// `cs` without leading and trailing white space, as `str::trim` gives it.
pub open spec fn trim_spec(cs: Seq<char>) -> Seq<char> {
    trim_end_spec(trim_start_spec(cs))
}

/// The characters of `s` without leading and trailing white space.
pub fn trim(s: &str) -> (res: Vec<char>)
    ensures
        res@ == trim_spec(s@),
{
    let cs = str_chars(s);
    let mut lo: usize = 0;
    assert(cs@.skip(0) =~= cs@);
    while lo < cs.len() && char_is_whitespace(cs[lo])
        invariant
            lo <= cs.len(),
            trim_start_spec(cs@) == trim_start_spec(cs@.skip(lo as int)),
        decreases cs.len() - lo,
    {
        assert(cs@.skip(lo as int).drop_first() =~= cs@.skip(lo + 1));
        lo = lo + 1;
    }
    assert(trim_start_spec(cs@.skip(lo as int)) == cs@.skip(lo as int));
    assert(cs@.skip(lo as int) =~= cs@.subrange(lo as int, cs@.len() as int));
    let mut hi: usize = cs.len();
    while hi > lo && char_is_whitespace(cs[hi - 1])
        invariant
            lo <= hi <= cs.len(),
            trim_spec(s@) == trim_end_spec(cs@.subrange(lo as int, hi as int)),
        decreases hi - lo,
    {
        assert(cs@.subrange(lo as int, hi as int).drop_last() =~= cs@.subrange(
            lo as int,
            hi - 1,
        ));
        hi = hi - 1;
    }
    let mut res: Vec<char> = Vec::new();
    let mut i: usize = lo;
    while i < hi
        invariant
            lo <= i <= hi <= cs.len(),
            res@ == cs@.subrange(lo as int, i as int),
        decreases hi - i,
    {
        res.push(cs[i]);
        i = i + 1;
        assert(res@ =~= cs@.subrange(lo as int, i as int));
    }
    res
}

/// Whether two strings are equal.
pub fn str_eq(a: &str, b: &str) -> (res: bool)
    ensures
        res == (a@ == b@),
{
    let n = a.unicode_len();
    if n != b.unicode_len() {
        return false;
    }
    let mut i: usize = 0;
    while i < n
        invariant
            n == a@.len(),
            n == b@.len(),
            i <= n,
            a@.take(i as int) == b@.take(i as int),
        decreases n - i,
    {
        if a.get_char(i) != b.get_char(i) {
            assert(a@[i as int] != b@[i as int]);
            return false;
        }
        i = i + 1;
        assert(a@.take(i as int) =~= b@.take(i as int));
    }
    assert(a@ =~= a@.take(n as int));
    assert(b@ =~= b@.take(n as int));
    true
}

/// The characters of `s`.
pub fn str_chars(s: &str) -> (res: Vec<char>)
    ensures
        res@ == s@,
{
    let n = s.unicode_len();
    let mut res: Vec<char> = Vec::new();
    let mut i: usize = 0;
    while i < n
        invariant
            n == s@.len(),
            i <= n,
            res@ == s@.take(i as int),
        decreases n - i,
    {
        res.push(s.get_char(i));
        i = i + 1;
        assert(res@ =~= s@.take(i as int));
    }
    assert(res@ =~= s@);
    res
}

/// A `String` holding `cs`.
pub fn string_from_chars(cs: &Vec<char>) -> (res: String)
    ensures
        res@ == cs@,
{
    let mut res = String::new();
    let mut i: usize = 0;
    while i < cs.len()
        invariant
            i <= cs.len(),
            res@ == cs@.take(i as int),
        decreases cs.len() - i,
    {
        push_char(&mut res, cs[i]);
        i = i + 1;
        assert(res@ =~= cs@.take(i as int));
    }
    assert(res@ =~= cs@);
    res
}

/// The character of decimal digit `d`.
pub open spec fn digit_char(d: int) -> char {
    (48 + d) as char
}

pub open spec fn is_digit(c: char) -> bool {
    '0' <= c && c <= '9'
}

/// The value of a decimal digit character.
pub open spec fn digit_value(c: char) -> int {
    c as int - 48
}

/// `n` in decimal, without leading zeros.
pub open spec fn decimal(n: nat) -> Seq<char>
    decreases n,
{
    if n < 10 {
        seq![digit_char(n as int)]
    } else {
        decimal(n / 10).push(digit_char((n % 10) as int))
    }
}

/// `a.b.c.d`, the dotted-quad text of an IPv4 address.
pub open spec fn ipv4_text(ip: u32) -> Seq<char> {
    decimal(ip as nat / 0x1000000) + seq!['.'] + decimal((ip as nat / 0x10000) % 0x100) + seq!['.']
        + decimal((ip as nat / 0x100) % 0x100) + seq!['.'] + decimal(ip as nat % 0x100)
}

fn digit(d: u32) -> (c: char)
    requires
        d < 10,
    ensures
        c == digit_char(d as int),
{
    let b: u8 = 48u8 + d as u8;
    b as char
}

/// Appends `n` in decimal.
pub fn push_decimal(s: &mut String, n: u32)
    ensures
        final(s)@ == old(s)@ + decimal(n as nat),
    decreases n,
{
    if n >= 10 {
        push_decimal(s, n / 10);
    }
    push_char(s, digit(n % 10));
    assert(decimal(n as nat) =~= if n < 10 {
        seq![digit_char(n as int)]
    } else {
        decimal(n as nat / 10).push(digit_char((n % 10) as int))
    });
}

/// Appends the dotted-quad text of `ip`.
pub fn push_ipv4(s: &mut String, ip: u32)
    ensures
        final(s)@ == old(s)@ + ipv4_text(ip),
{
    let ghost s0 = s@;
    push_decimal(s, ip / 0x1000000);
    push_char(s, '.');
    push_decimal(s, (ip / 0x10000) % 0x100);
    push_char(s, '.');
    push_decimal(s, (ip / 0x100) % 0x100);
    push_char(s, '.');
    push_decimal(s, ip % 0x100);
    assert(s@ =~= s0 + ipv4_text(ip));
}

/// `n` in decimal.
pub fn decimal_string(n: u32) -> (res: String)
    ensures
        res@ == decimal(n as nat),
{
    let mut s = String::new();
    push_decimal(&mut s, n);
    assert(s@ =~= decimal(n as nat));
    s
}

/// Why a string is not an unsigned integer (as std reports it).
#[derive(Clone, Copy, PartialEq, Eq, Structural, Debug)]
pub enum IntErrorKind {
    Empty,
    InvalidDigit,
    PosOverflow,
}

/// Reading the digits `ds[0..k]` into a value at most `max`: the value, or
/// the first problem met from the left.
pub open spec fn scan_digits(ds: Seq<char>, k: nat, max: nat) -> Result<nat, IntErrorKind>
    decreases k,
{
    if k == 0 {
        Ok(0)
    } else {
        match scan_digits(ds, (k - 1) as nat, max) {
            Err(e) => Err(e),
            Ok(v) => if !is_digit(ds[k - 1]) {
                Err(IntErrorKind::InvalidDigit)
            } else if v * 10 + digit_value(ds[k - 1]) > max {
                Err(IntErrorKind::PosOverflow)
            } else {
                Ok((v * 10 + digit_value(ds[k - 1])) as nat)
            },
        }
    }
}

/// std's parsing of an unsigned decimal integer no larger than `max`: an
/// optional leading `+`, then digits only.
pub open spec fn parse_unsigned_spec(cs: Seq<char>, max: nat) -> Result<nat, IntErrorKind> {
    if cs.len() == 0 {
        Err(IntErrorKind::Empty)
    } else if cs.len() == 1 && (cs[0] == '+' || cs[0] == '-') {
        Err(IntErrorKind::InvalidDigit)
    } else {
        let ds = if cs[0] == '+' {
            cs.drop_first()
        } else {
            cs
        };
        scan_digits(ds, ds.len(), max)
    }
}

proof fn lemma_scan_bound(ds: Seq<char>, k: nat, max: nat)
    ensures
        scan_digits(ds, k, max) is Ok ==> scan_digits(ds, k, max)->Ok_0 <= max,
    decreases k,
{
    if k > 0 {
        lemma_scan_bound(ds, (k - 1) as nat, max);
    }
}

/// Parses `cs` as std does for an unsigned type whose largest value is `max`.
pub fn parse_unsigned(cs: &Vec<char>, max: u32) -> (res: Result<u32, IntErrorKind>)
    ensures
        match parse_unsigned_spec(cs@, max as nat) {
            Ok(v) => res == Ok::<u32, IntErrorKind>(v as u32) && v <= max,
            Err(e) => res == Err::<u32, IntErrorKind>(e),
        },
{
    proof {
        let ds = if cs@.len() > 0 && cs@[0] == '+' { cs@.drop_first() } else { cs@ };
        lemma_scan_bound(ds, ds.len(), max as nat);
    }
    if cs.len() == 0 {
        return Err(IntErrorKind::Empty);
    }
    if cs.len() == 1 && (cs[0] == '+' || cs[0] == '-') {
        return Err(IntErrorKind::InvalidDigit);
    }
    let start: usize = if cs[0] == '+' { 1 } else { 0 };
    let ghost ds = if cs@[0] == '+' { cs@.drop_first() } else { cs@ };
    assert(ds =~= cs@.subrange(start as int, cs@.len() as int));
    let mut v: u64 = 0;
    let mut i: usize = start;
    while i < cs.len()
        invariant
            start <= i <= cs.len(),
            ds == cs@.subrange(start as int, cs@.len() as int),
            parse_unsigned_spec(cs@, max as nat) == scan_digits(ds, ds.len(), max as nat),
            scan_digits(ds, (i - start) as nat, max as nat) == Ok::<nat, IntErrorKind>(v as nat),
            v <= max,
        decreases cs.len() - i,
    {
        let c = cs[i];
        assert(ds[(i - start) as int] == c);
        if !('0' <= c && c <= '9') {
            proof {
                lemma_scan_prefix_err(ds, (i - start + 1) as nat, ds.len(), max as nat);
            }
            return Err(IntErrorKind::InvalidDigit);
        }
        let d: u64 = (c as u32 - 48) as u64;
        if v * 10 + d > max as u64 {
            proof {
                lemma_scan_prefix_err(ds, (i - start + 1) as nat, ds.len(), max as nat);
            }
            return Err(IntErrorKind::PosOverflow);
        }
        v = v * 10 + d;
        i = i + 1;
    }
    assert(ds.len() == (i - start) as nat);
    Ok(v as u32)
}

/// Once the scan fails on a prefix, it fails the same way on the whole.
proof fn lemma_scan_prefix_err(ds: Seq<char>, k: nat, n: nat, max: nat)
    requires
        k <= n,
        scan_digits(ds, k, max) is Err,
    ensures
        scan_digits(ds, n, max) == scan_digits(ds, k, max),
    decreases n - k,
{
    if k < n {
        lemma_scan_prefix_err(ds, k, (n - 1) as nat, max);
    }
}

/// `str::parse::<u16>`.
pub fn parse_u16(s: &str) -> (res: Result<u16, IntErrorKind>)
    ensures
        match parse_unsigned_spec(s@, u16::MAX as nat) {
            Ok(v) => res == Ok::<u16, IntErrorKind>(v as u16),
            Err(e) => res == Err::<u16, IntErrorKind>(e),
        },
{
    let cs = str_chars(s);
    match parse_unsigned(&cs, 0xffff) {
        Ok(v) => Ok(v as u16),
        Err(e) => Err(e),
    }
}

/// `str::parse::<u32>`.
pub fn parse_u32(s: &str) -> (res: Result<u32, IntErrorKind>)
    ensures
        match parse_unsigned_spec(s@, u32::MAX as nat) {
            Ok(v) => res == Ok::<u32, IntErrorKind>(v as u32),
            Err(e) => res == Err::<u32, IntErrorKind>(e),
        },
{
    let cs = str_chars(s);
    parse_unsigned(&cs, 0xffff_ffff)
}

/// Decimal text reads back as the number it was made from.
pub proof fn lemma_decimal_parses_back(n: u32, max: nat)
    requires
        n <= max,
    ensures
        parse_unsigned_spec(decimal(n as nat), max) == Ok::<nat, IntErrorKind>(n as nat),
{
    lemma_decimal_scan(n as nat, max);
    lemma_decimal_first(n as nat);
}

proof fn lemma_decimal_first(n: nat)
    ensures
        decimal(n).len() >= 1,
        is_digit(decimal(n)[0]),
    decreases n,
{
    if n >= 10 {
        lemma_decimal_first(n / 10);
    }
}

proof fn lemma_decimal_scan(n: nat, max: nat)
    requires
        n <= max,
    ensures
        scan_digits(decimal(n), decimal(n).len(), max) == Ok::<nat, IntErrorKind>(n),
        decimal(n).len() >= 1,
        forall|i: int| 0 <= i < decimal(n).len() ==> is_digit(#[trigger] decimal(n)[i]),
    decreases n,
{
    let d = decimal(n);
    if n < 10 {
        assert(d.len() == 1);
        assert(scan_digits(d, 0, max) == Ok::<nat, IntErrorKind>(0));
    } else {
        let p = decimal(n / 10);
        lemma_decimal_scan(n / 10, max);
        assert(d == p.push(digit_char((n % 10) as int)));
        lemma_scan_extend(p, digit_char((n % 10) as int), p.len(), max);
        assert((n / 10) * 10 + n % 10 == n);
    }
}

/// Scanning a prefix only looks at the prefix.
proof fn lemma_scan_extend(p: Seq<char>, c: char, k: nat, max: nat)
    requires
        k <= p.len(),
    ensures
        scan_digits(p.push(c), k, max) == scan_digits(p, k, max),
    decreases k,
{
    if k > 0 {
        lemma_scan_extend(p, c, (k - 1) as nat, max);
        assert(p.push(c)[k - 1] == p[k - 1]);
    }
}

} // verus!
