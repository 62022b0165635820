//! One's-complement checksum arithmetic (RFC 1071 / RFC 1624) used when a
//! NAT rewrites an address or a port inside an IPv4 or UDP header.

use vstd::prelude::*;

verus! {

/// The modulus of one's-complement 16-bit arithmetic.
pub open spec fn ones_mod() -> int {
    0xffff
}

/// End-around-carry addition of two 32-bit words.
pub open spec fn csum_add_spec(csum: u32, addend: u32) -> u32 {
    if csum + addend > u32::MAX {
        (csum + addend - u32::MAX) as u32
    } else {
        (csum + addend) as u32
    }
}

/// One folding step: the high half added onto the low half.
pub open spec fn fold16(x: int) -> int {
    x % 0x10000 + x / 0x10000
}

/// Folds a 32-bit accumulator to 16 bits and complements it.
pub open spec fn csum_fold_spec(csum: u32) -> u16 {
    (0xffff - fold16(fold16(csum as int))) as u16
}

/// Incremental checksum update for a 32-bit field changing from `from` to `to`.
pub open spec fn csum_replace4_spec(csum: u32, from: u32, to: u32) -> u16 {
    csum_fold_spec(csum_add_spec(csum_add_spec(!csum, !from), to))
}

/// `x` and `y` are equal in one's-complement arithmetic.
pub open spec fn ones_congruent(x: int, y: int) -> bool {
    (x - y) % ones_mod() == 0
}

fn csum_add(csum: u32, addend: u32) -> (res: u32)
    ensures
        res == csum_add_spec(csum, addend),
{
    let res = csum.wrapping_add(addend);
    let carry: u32 = if res < addend { 1 } else { 0 };
    res.wrapping_add(carry)
}

fn csum_fold(csum: u32) -> (res: u16)
    ensures
        res == csum_fold_spec(csum),
{
    let mut csum = csum;
    let ghost c0 = csum as int;
    assert(csum & 0xffff == csum % 0x10000 && csum >> 16 == csum / 0x10000) by (bit_vector);
    csum = (csum & 0xffff).wrapping_add(csum >> 16);
    assert(csum == fold16(c0));
    assert(csum <= 0x1fffe);
    let ghost c1 = csum as int;
    assert(csum & 0xffff == csum % 0x10000 && csum >> 16 == csum / 0x10000) by (bit_vector);
    csum = (csum & 0xffff).wrapping_add(csum >> 16);
    assert(csum == fold16(c1));
    assert(csum <= 0xffff);
    let low = csum as u16;
    assert(!low == 0xffff - low) by (bit_vector);
    !low
}

/// Updates the checksum `csum` of a header in which a 32-bit field changes
/// from `from` to `to` (RFC 1624, equation 3).
pub fn csum_replace4(csum: u32, from: u32, to: u32) -> (res: u16)
    ensures
        res == csum_replace4_spec(csum, from, to),
{
    let tmp = csum_add(!csum, !from);
    csum_fold(csum_add(tmp, to))
}

/// Sum of a sequence of 16-bit words, without folding.
pub open spec fn sum16(words: Seq<u16>) -> int
    decreases words.len(),
{
    if words.len() == 0 {
        0
    } else {
        sum16(words.drop_last()) + words.last()
    }
}

/// A block whose checksum field is filled in correctly sums to zero in
/// one's-complement arithmetic.
pub open spec fn checksum_valid(words: Seq<u16>) -> bool {
    ones_congruent(sum16(words), 0)
}

proof fn lemma_not_u32(x: u32)
    ensures
        !x == u32::MAX - x,
{
    assert(!x == 0xffff_ffffu32 - x) by (bit_vector);
}

/// End-around-carry addition is addition modulo 2^32 - 1, hence also
/// modulo 0xffff.
pub proof fn lemma_csum_add_congruent(csum: u32, addend: u32)
    ensures
        ones_congruent(csum_add_spec(csum, addend) as int, csum + addend),
{
}

proof fn lemma_fold16_congruent(x: int)
    requires
        0 <= x,
    ensures
        ones_congruent(fold16(x), x),
        0 <= fold16(x),
{
    let q = x / 0x10000;
    let r = x % 0x10000;
    assert(x == 0x10000 * q + r);
    assert(x - fold16(x) == 0xffff * q);
    vstd::arithmetic::div_mod::lemma_mod_multiples_basic(q, 0xffff);
    assert((q * 0xffff) % 0xffff == 0);
    assert(0xffff * q == q * 0xffff) by (nonlinear_arith);
}

/// The folded, complemented checksum is the one's-complement negation of
/// the accumulator.
pub proof fn lemma_csum_fold_negates(csum: u32)
    ensures
        ones_congruent(csum_fold_spec(csum) as int, -(csum as int)),
{
    lemma_fold16_congruent(csum as int);
    lemma_fold16_congruent(fold16(csum as int));
    let f1 = fold16(csum as int);
    let f2 = fold16(f1);
    assert(csum as int % 0x10000 <= 0xffff);
    assert(csum as int / 0x10000 <= 0xffff);
    assert(f1 <= 0x1fffe);
    assert(f2 <= 0xffff) by {
        assert(f1 / 0x10000 <= 1);
        if f1 / 0x10000 == 1 {
            assert(f1 % 0x10000 <= 0xfffe);
        }
    }
    assert(csum_fold_spec(csum) as int == 0xffff - f2);
}

/// RFC 1624: the incrementally updated checksum equals, in one's-complement
/// arithmetic, the old checksum plus the old field value minus the new one.
pub proof fn lemma_csum_replace4_congruent(csum: u32, from: u32, to: u32)
    ensures
        ones_congruent(csum_replace4_spec(csum, from, to) as int, csum + from - to),
{
    lemma_not_u32(csum);
    lemma_not_u32(from);
    let a = csum_add_spec(!csum, !from);
    let b = csum_add_spec(a, to);
    lemma_csum_add_congruent(!csum, !from);
    lemma_csum_add_congruent(a, to);
    lemma_csum_fold_negates(b);
    assert(ones_congruent(u32::MAX as int, 0));
}

pub proof fn lemma_sum16_update(words: Seq<u16>, j: int, v: u16)
    requires
        0 <= j < words.len(),
    ensures
        sum16(words.update(j, v)) == sum16(words) - words[j] + v,
    decreases words.len(),
{
    let w2 = words.update(j, v);
    if j == words.len() - 1 {
        assert(w2.drop_last() =~= words.drop_last());
    } else {
        lemma_sum16_update(words.drop_last(), j, v);
        assert(w2.drop_last() =~= words.drop_last().update(j, v));
    }
}

/// Rewriting a 32-bit field stored in the big-endian word pair `i, i + 1`
/// to `to`, and updating the checksum word `k` with `csum_replace4`, keeps a
/// valid checksum valid.
pub proof fn lemma_replace4_keeps_checksum_valid(words: Seq<u16>, k: int, i: int, to: u32)
    requires
        checksum_valid(words),
        0 <= k < words.len(),
        0 <= i,
        i + 1 < words.len(),
        k != i,
        k != i + 1,
    ensures
        checksum_valid(
            words.update(i, (to / 0x10000) as u16).update(i + 1, (to % 0x10000) as u16).update(
                k,
                csum_replace4_spec(
                    words[k] as u32,
                    (words[i] * 0x10000 + words[i + 1]) as u32,
                    to,
                ),
            ),
        ),
{
    let from = (words[i] * 0x10000 + words[i + 1]) as u32;
    let w1 = words.update(i, (to / 0x10000) as u16);
    let w2 = w1.update(i + 1, (to % 0x10000) as u16);
    let r = csum_replace4_spec(words[k] as u32, from, to);
    lemma_sum16_update(words, i, (to / 0x10000) as u16);
    lemma_sum16_update(w1, i + 1, (to % 0x10000) as u16);
    lemma_sum16_update(w2, k, r);
    lemma_csum_replace4_congruent(words[k] as u32, from, to);
    lemma_fold16_congruent(from as int);
    lemma_fold16_congruent(to as int);
}

/// Rewriting the 16-bit field in word `i` to `to`, and updating the
/// checksum word `k` with `csum_replace4`, keeps a valid checksum valid.
pub proof fn lemma_replace2_keeps_checksum_valid(words: Seq<u16>, k: int, i: int, to: u16)
    requires
        checksum_valid(words),
        0 <= k < words.len(),
        0 <= i < words.len(),
        k != i,
    ensures
        checksum_valid(
            words.update(i, to).update(
                k,
                csum_replace4_spec(words[k] as u32, words[i] as u32, to as u32),
            ),
        ),
{
    let w1 = words.update(i, to);
    let r = csum_replace4_spec(words[k] as u32, words[i] as u32, to as u32);
    lemma_sum16_update(words, i, to);
    lemma_sum16_update(w1, k, r);
    lemma_csum_replace4_congruent(words[k] as u32, words[i] as u32, to as u32);
}

} // verus!
