//! Bit-field extraction helpers shared by the decoder and the instruction
//! semantics.  Each executable helper is pinned to a spec twin so contracts
//! elsewhere can speak of the same expressions.

use vstd::prelude::*;

verus! {

/// The bits of `b` starting at `start`, `len` wide.
pub open spec fn spec_bits16(b: u16, start: u16, len: u16) -> u16 {
    (b >> start) & (((1u32 << len) - 1) as u16)
}

/// Bit `pos` of an 8-bit value, as 0 or 1.
pub open spec fn spec_bit(b: u8, pos: u8) -> u8 {
    (b >> pos) & 1
}

/// Bit `pos` of a 16-bit value, as 0 or 1.
pub open spec fn spec_bit16(b: u16, pos: u16) -> u8 {
    ((b >> pos) & 1) as u8
}

/// The complement of bit `pos` of an 8-bit value, as 0 or 1.
pub open spec fn spec_bitneg(b: u8, pos: u8) -> u8 {
    !spec_bit(b, pos) & 1
}

/// The complement of bit `pos` of a 16-bit value, as 0 or 1.
pub open spec fn spec_bitneg16(b: u16, pos: u16) -> u8 {
    !spec_bit16(b, pos) & 1
}

/// A single-bit extraction is 0 or 1, and flipping it with `! . & 1`
/// exchanges the two.
pub proof fn lemma_bit_01()
    by (bit_vector)
    ensures
        forall|b: u8, pos: u8| #[trigger] spec_bit(b, pos) == 0 || spec_bit(b, pos) == 1,
        forall|b: u16, pos: u16| #[trigger] spec_bit16(b, pos) == 0 || spec_bit16(b, pos) == 1,
        forall|v: u8| v == 0 || v == 1 ==> #[trigger] (!v & 1) == (if v == 0 { 1u8 } else { 0u8 }),
{
}

/// Shifting 1 left by fewer than 16 gives a value in [1, 0x8000].
pub proof fn lemma_mask_range()
    by (bit_vector)
    ensures
        forall|len: u16| len < 16 ==> 1 <= #[trigger] (1u32 << len) <= 0x8000,
        forall|b: u16, start: u16, len: u16| len <= 8 ==> #[trigger] spec_bits16(b, start, len)
            < 256,
{
}

/// Extract `len` bits of `b` starting at `start`, narrowed to 8 bits.
pub fn bits(b: u16, start: u16, len: u16) -> (r: u8)
    requires
        start < 16,
        len <= 8,
    ensures
        r == spec_bits16(b, start, len),
{
    proof {
        lemma_mask_range();
    }
    bits16(b, start, len) as u8
}

/// Extract `len` bits of `b` starting at `start`.
pub fn bits16(b: u16, start: u16, len: u16) -> (r: u16)
    requires
        start < 16,
        len < 16,
    ensures
        r == spec_bits16(b, start, len),
{
    proof {
        lemma_mask_range();
    }
    let mask: u32 = (1u32 << len) - 1;
    (b >> start) & (mask as u16)
}

/// Bit `pos` of `b`, as 0 or 1.
pub fn bit(b: u8, pos: u8) -> (r: u8)
    requires
        pos < 8,
    ensures
        r == spec_bit(b, pos),
        r == 0 || r == 1,
{
    proof {
        lemma_bit_01();
    }
    (b >> pos) & 1
}

/// Bit `pos` of a 16-bit `b`, as 0 or 1.
pub fn bit16(b: u16, pos: u16) -> (r: u8)
    requires
        pos < 16,
    ensures
        r == spec_bit16(b, pos),
        r == 0 || r == 1,
{
    proof {
        lemma_bit_01();
    }
    #[verifier::truncate]
    let r = ((b >> pos) & 1) as u8;
    r
}

/// The complement of bit `pos` of `b`, as 0 or 1.
pub fn bitneg(b: u8, pos: u8) -> (r: u8)
    requires
        pos < 8,
    ensures
        r == spec_bitneg(b, pos),
        r == 0 || r == 1,
{
    proof {
        lemma_bit_01();
    }
    let x = bit(b, pos);
    !x & 1
}

/// The complement of bit `pos` of a 16-bit `b`, as 0 or 1.
pub fn bitneg16(b: u16, pos: u16) -> (r: u8)
    requires
        pos < 16,
    ensures
        r == spec_bitneg16(b, pos),
        r == 0 || r == 1,
{
    proof {
        lemma_bit_01();
    }
    let x = bit16(b, pos);
    !x & 1
}

} // verus!
