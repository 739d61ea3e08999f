//! Single bits of a byte, and the facts about shifts and masks that the
//! display's proofs rest on.

use vstd::prelude::*;

verus! {

/// Bit `k` of `b`, bit 0 being the least significant.
pub open spec fn bit_at(b: u8, k: u8) -> bool {
    (b >> k) & 1 == 1
}

pub(crate) proof fn lemma_bit_shr(byte: u8, sh: u8, k: u8)
    by (bit_vector)
    requires
        sh < 8,
        k < 8,
    ensures
        bit_at(byte >> sh, k) == (k + sh < 8 && bit_at(byte, (k + sh) as u8)),
{
}

pub(crate) proof fn lemma_bit_shl(byte: u8, amount: u8, k: u8)
    by (bit_vector)
    requires
        0 < amount < 8,
        k < 8,
    ensures
        bit_at(byte << amount, k) == (k >= amount && bit_at(byte, (k - amount) as u8)),
{
}

pub(crate) proof fn lemma_bit_xor(a: u8, m: u8, k: u8)
    by (bit_vector)
    requires
        k < 8,
    ensures
        bit_at(a ^ m, k) == (bit_at(a, k) != bit_at(m, k)),
{
}

pub(crate) proof fn lemma_bit_zero(k: u8)
    by (bit_vector)
    requires
        k < 8,
    ensures
        !bit_at(0u8, k),
{
}

pub(crate) proof fn lemma_bits_and(a: u8, m: u8)
    by (bit_vector)
    ensures
        (a & m) != 0 <==> (bit_at(a, 0) && bit_at(m, 0)) || (bit_at(a, 1) && bit_at(m, 1)) || (bit_at(
            a,
            2,
        ) && bit_at(m, 2)) || (bit_at(a, 3) && bit_at(m, 3)) || (bit_at(a, 4) && bit_at(m, 4)) || (
        bit_at(a, 5) && bit_at(m, 5)) || (bit_at(a, 6) && bit_at(m, 6)) || (bit_at(a, 7) && bit_at(
            m,
            7,
        )),
{
}

/// Two bytes share a set bit exactly when their bitwise AND is not zero.
pub(crate) proof fn lemma_and_nonzero(a: u8, m: u8)
    ensures
        (a & m) != 0 <==> exists|k: u8| k < 8 && bit_at(a, k) && #[trigger] bit_at(m, k),
{
    lemma_bits_and(a, m);
    if (a & m) != 0 {
        let k: u8 = if bit_at(a, 0) && bit_at(m, 0) {
            0
        } else if bit_at(a, 1) && bit_at(m, 1) {
            1
        } else if bit_at(a, 2) && bit_at(m, 2) {
            2
        } else if bit_at(a, 3) && bit_at(m, 3) {
            3
        } else if bit_at(a, 4) && bit_at(m, 4) {
            4
        } else if bit_at(a, 5) && bit_at(m, 5) {
            5
        } else if bit_at(a, 6) && bit_at(m, 6) {
            6
        } else {
            7
        };
        assert(k < 8 && bit_at(a, k) && bit_at(m, k));
    }
}

pub(crate) proof fn lemma_bits_nonzero(b: u8)
    by (bit_vector)
    ensures
        b != 0 <==> bit_at(b, 0) || bit_at(b, 1) || bit_at(b, 2) || bit_at(b, 3) || bit_at(b, 4)
            || bit_at(b, 5) || bit_at(b, 6) || bit_at(b, 7),
{
}

pub(crate) proof fn lemma_bits_equal(a: u8, b: u8)
    by (bit_vector)
    requires
        bit_at(a, 0) == bit_at(b, 0),
        bit_at(a, 1) == bit_at(b, 1),
        bit_at(a, 2) == bit_at(b, 2),
        bit_at(a, 3) == bit_at(b, 3),
        bit_at(a, 4) == bit_at(b, 4),
        bit_at(a, 5) == bit_at(b, 5),
        bit_at(a, 6) == bit_at(b, 6),
        bit_at(a, 7) == bit_at(b, 7),
    ensures
        a == b,
{
}

} // verus!
