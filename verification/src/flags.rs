//! The status register: flag positions, the masked flag-update rule, and
//! the per-family flag derivations of the arithmetic instructions.
//!
//! Every flag write of an arithmetic or logic instruction goes through
//! `spec_set_flags`, which recomputes the sign flag S as N xor V; S can
//! only be written directly by BSET, BCLR, or a raw store to SREG.

use vstd::prelude::*;

use crate::util::{bit, bitneg, spec_bit, spec_bitneg};

verus! {

/// Bit position of I, the global interrupt enable.
pub const FLAG_I: u8 = 7;

/// Bit position of T, the bit-copy flag.
pub const FLAG_T: u8 = 6;

/// Bit position of H, the half carry.
pub const FLAG_H: u8 = 5;

/// Bit position of S, the sign (N xor V).
pub const FLAG_S: u8 = 4;

/// Bit position of V, the two's-complement overflow.
pub const FLAG_V: u8 = 3;

/// Bit position of N, the negative flag.
pub const FLAG_N: u8 = 2;

/// Bit position of Z, the zero flag.
pub const FLAG_Z: u8 = 1;

/// Bit position of C, the carry.
pub const FLAG_C: u8 = 0;

/// 1 where a flag is written, 0 where it is kept.
pub open spec fn opt_set(o: Option<u8>) -> u8 {
    if o is Some {
        1
    } else {
        0
    }
}

/// The written value, or 0 for a kept flag.
pub open spec fn opt_val(o: Option<u8>) -> u8 {
    match o {
        Some(v) => v,
        None => 0,
    }
}

/// The new SREG after writing the given flags (each `Some` value must be 0
/// or 1) and recomputing S as N xor V.  Flags passed as `None` keep their
/// old value.
pub open spec fn spec_set_flags(
    f: u8,
    i: Option<u8>,
    t: Option<u8>,
    h: Option<u8>,
    v: Option<u8>,
    n: Option<u8>,
    z: Option<u8>,
    c: Option<u8>,
) -> u8 {
    let set = (opt_set(i) << 7) | (opt_set(t) << 6) | (opt_set(h) << 5) | (opt_set(v) << 3) | (
    opt_set(n) << 2) | (opt_set(z) << 1) | opt_set(c);
    let val = (opt_val(i) << 7) | (opt_val(t) << 6) | (opt_val(h) << 5) | (opt_val(v) << 3) | (
    opt_val(n) << 2) | (opt_val(z) << 1) | opt_val(c);
    let g = (f & !set) | val;
    let g2 = g & !(1u8 << 4);
    g2 | ((spec_bit(g2, 2) ^ spec_bit(g2, 3)) << 4)
}

/// Compute the new SREG byte for a masked flag write.
pub fn apply_flags(
    f: u8,
    i: Option<u8>,
    t: Option<u8>,
    h: Option<u8>,
    v: Option<u8>,
    n: Option<u8>,
    z: Option<u8>,
    c: Option<u8>,
) -> (r: u8)
    ensures
        r == spec_set_flags(f, i, t, h, v, n, z, c),
{
    let bi: u8 = if i.is_some() { 1 } else { 0 };
    let bt: u8 = if t.is_some() { 1 } else { 0 };
    let bh: u8 = if h.is_some() { 1 } else { 0 };
    let bv: u8 = if v.is_some() { 1 } else { 0 };
    let bn: u8 = if n.is_some() { 1 } else { 0 };
    let bz: u8 = if z.is_some() { 1 } else { 0 };
    let bc: u8 = if c.is_some() { 1 } else { 0 };
    let set = (bi << 7) | (bt << 6) | (bh << 5) | (bv << 3) | (bn << 2) | (bz << 1) | bc;
    let vi: u8 = match i { Some(x) => x, None => 0 };
    let vt: u8 = match t { Some(x) => x, None => 0 };
    let vh: u8 = match h { Some(x) => x, None => 0 };
    let vv: u8 = match v { Some(x) => x, None => 0 };
    let vn: u8 = match n { Some(x) => x, None => 0 };
    let vz: u8 = match z { Some(x) => x, None => 0 };
    let vc: u8 = match c { Some(x) => x, None => 0 };
    let val = (vi << 7) | (vt << 6) | (vh << 5) | (vv << 3) | (vn << 2) | (vz << 1) | vc;
    let g = (f & !set) | val;
    let g2 = g & !(1u8 << 4);
    g2 | ((bit(g2, 2) ^ bit(g2, 3)) << 4)
}

/// 1 when the byte is zero.
pub open spec fn spec_zero(res: u8) -> u8 {
    if res == 0 {
        1
    } else {
        0
    }
}

/// 1 when the byte is zero.
pub fn zero_bit(res: u8) -> (r: u8)
    ensures
        r == spec_zero(res),
{
    if res == 0 {
        1
    } else {
        0
    }
}

/// 1 when the word is zero.
pub open spec fn spec_zero16(res: u16) -> u8 {
    if res == 0 {
        1
    } else {
        0
    }
}

/// 1 when the word is zero.
pub fn zero_bit16(res: u16) -> (r: u8)
    ensures
        r == spec_zero16(res),
{
    if res == 0 {
        1
    } else {
        0
    }
}

/// Half carry of an addition: carry out of bit 3.
pub open spec fn spec_add_h(rd: u8, rr: u8, res: u8) -> u8 {
    spec_bit(rd, 3) & spec_bit(rr, 3) | spec_bitneg(res, 3) & (spec_bit(rd, 3) | spec_bit(rr, 3))
}

/// Half carry of an addition: carry out of bit 3.
pub fn add_h(rd: u8, rr: u8, res: u8) -> (r: u8)
    ensures
        r == spec_add_h(rd, rr, res),
{
    bit(rd, 3) & bit(rr, 3) | bitneg(res, 3) & (bit(rd, 3) | bit(rr, 3))
}

/// Signed overflow of an addition: both operands share a sign the result
/// lost.
pub open spec fn spec_add_v(rd: u8, rr: u8, res: u8) -> u8 {
    spec_bit(rd, 7) & spec_bit(rr, 7) & spec_bitneg(res, 7) | spec_bitneg(rd, 7) & spec_bitneg(
        rr,
        7,
    ) & spec_bit(res, 7)
}

/// Signed overflow of an addition.
pub fn add_v(rd: u8, rr: u8, res: u8) -> (r: u8)
    ensures
        r == spec_add_v(rd, rr, res),
{
    bit(rd, 7) & bit(rr, 7) & bitneg(res, 7) | bitneg(rd, 7) & bitneg(rr, 7) & bit(res, 7)
}

/// Carry of an addition: carry out of bit 7.
pub open spec fn spec_add_c(rd: u8, rr: u8, res: u8) -> u8 {
    spec_bit(rd, 7) & spec_bit(rr, 7) | spec_bitneg(res, 7) & (spec_bit(rd, 7) | spec_bit(rr, 7))
}

/// Carry of an addition: carry out of bit 7.
pub fn add_c(rd: u8, rr: u8, res: u8) -> (r: u8)
    ensures
        r == spec_add_c(rd, rr, res),
{
    bit(rd, 7) & bit(rr, 7) | bitneg(res, 7) & (bit(rd, 7) | bit(rr, 7))
}

/// Half borrow of a subtraction: borrow from bit 4.
pub open spec fn spec_sub_h(rd: u8, rr: u8, res: u8) -> u8 {
    spec_bitneg(rd, 3) & spec_bit(rr, 3) | spec_bit(rr, 3) & spec_bit(res, 3) | spec_bit(res, 3)
        & spec_bitneg(rd, 3)
}

/// Half borrow of a subtraction.
pub fn sub_h(rd: u8, rr: u8, res: u8) -> (r: u8)
    ensures
        r == spec_sub_h(rd, rr, res),
{
    bitneg(rd, 3) & bit(rr, 3) | bit(rr, 3) & bit(res, 3) | bit(res, 3) & bitneg(rd, 3)
}

/// Signed overflow of a subtraction.
pub open spec fn spec_sub_v(rd: u8, rr: u8, res: u8) -> u8 {
    spec_bit(rd, 7) & spec_bitneg(rr, 7) & spec_bitneg(res, 7) | spec_bitneg(rd, 7) & spec_bit(
        rr,
        7,
    ) & spec_bit(res, 7)
}

/// Signed overflow of a subtraction.
pub fn sub_v(rd: u8, rr: u8, res: u8) -> (r: u8)
    ensures
        r == spec_sub_v(rd, rr, res),
{
    bit(rd, 7) & bitneg(rr, 7) & bitneg(res, 7) | bitneg(rd, 7) & bit(rr, 7) & bit(res, 7)
}

/// Borrow of a subtraction: borrow from bit 8.
pub open spec fn spec_sub_c(rd: u8, rr: u8, res: u8) -> u8 {
    spec_bitneg(rd, 7) & spec_bit(rr, 7) | spec_bit(rr, 7) & spec_bit(res, 7) | spec_bit(res, 7)
        & spec_bitneg(rd, 7)
}

/// Borrow of a subtraction.
pub fn sub_c(rd: u8, rr: u8, res: u8) -> (r: u8)
    ensures
        r == spec_sub_c(rd, rr, res),
{
    bitneg(rd, 7) & bit(rr, 7) | bit(rr, 7) & bit(res, 7) | bit(res, 7) & bitneg(rd, 7)
}

/// After any masked flag write, the S flag reads back as N xor V.
pub proof fn lemma_s_is_n_xor_v_bits()
    by (bit_vector)
    ensures
        forall|g2: u8|
            spec_bit(
                #[trigger] (g2 & !(1u8 << 4) | ((spec_bit(g2 & !(1u8 << 4), 2) ^ spec_bit(
                    g2 & !(1u8 << 4),
                    3,
                )) << 4)),
                4,
            ) == spec_bit(g2, 2) ^ spec_bit(g2, 3),
        forall|g2: u8|
            spec_bit(
                #[trigger] (g2 & !(1u8 << 4) | ((spec_bit(g2 & !(1u8 << 4), 2) ^ spec_bit(
                    g2 & !(1u8 << 4),
                    3,
                )) << 4)),
                2,
            ) == spec_bit(g2, 2),
        forall|g2: u8|
            spec_bit(
                #[trigger] (g2 & !(1u8 << 4) | ((spec_bit(g2 & !(1u8 << 4), 2) ^ spec_bit(
                    g2 & !(1u8 << 4),
                    3,
                )) << 4)),
                3,
            ) == spec_bit(g2, 3),
{
}

/// The result of `spec_set_flags` always satisfies S = N xor V.
pub proof fn lemma_set_flags_s(
    f: u8,
    i: Option<u8>,
    t: Option<u8>,
    h: Option<u8>,
    v: Option<u8>,
    n: Option<u8>,
    z: Option<u8>,
    c: Option<u8>,
)
    ensures
        ({
            let g = spec_set_flags(f, i, t, h, v, n, z, c);
            spec_bit(g, FLAG_S) == spec_bit(g, FLAG_N) ^ spec_bit(g, FLAG_V)
        }),
{
    lemma_s_is_n_xor_v_bits();
}

/// Bitwise combinations of flag bits stay single bits.
pub proof fn lemma_bit_ops_01()
    by (bit_vector)
    ensures
        forall|a: u8, b: u8| a <= 1 && b <= 1 ==> #[trigger] (a & b) <= 1,
        forall|a: u8, b: u8| a <= 1 && b <= 1 ==> #[trigger] (a | b) <= 1,
        forall|a: u8, b: u8| a <= 1 && b <= 1 ==> #[trigger] (a ^ b) <= 1,
{
}

/// The packed set and value bytes of a masked flag write that keeps I have
/// bit 7 clear.
pub proof fn lemma_flag_pack_bit7()
    by (bit_vector)
    ensures
        forall|z0: u8, bt: u8, bh: u8, bv: u8, bn: u8, bz: u8, bc: u8|
            z0 == 0 && bt <= 1 && bh <= 1 && bv <= 1 && bn <= 1 && bz <= 1 && bc <= 1
                ==> crate::util::spec_bit(
                #[trigger] ((z0 << 7) | (bt << 6) | (bh << 5) | (bv << 3) | (bn << 2) | (bz << 1)
                    | bc),
                7,
            ) == 0,
{
}

/// A masked write whose set and value bytes have bit 7 clear keeps the I
/// flag: neither the mask nor the S recomputation touches bit 7.
pub proof fn lemma_masked_write_keeps_bit7()
    by (bit_vector)
    ensures
        forall|f: u8, set: u8, val: u8|
            spec_bit(set, 7) == 0 && spec_bit(val, 7) == 0 ==> spec_bit(
                #[trigger] ((((f & !set) | val) & !(1u8 << 4)) | ((spec_bit(
                    ((f & !set) | val) & !(1u8 << 4),
                    2,
                ) ^ spec_bit(((f & !set) | val) & !(1u8 << 4), 3)) << 4)),
                7,
            ) == spec_bit(f, 7),
{
}

/// `spec_set_flags` with I kept (`None`) and single-bit values preserves
/// the I flag.
pub proof fn lemma_set_flags_keeps_i(
    f: u8,
    t: Option<u8>,
    h: Option<u8>,
    v: Option<u8>,
    n: Option<u8>,
    z: Option<u8>,
    c: Option<u8>,
)
    requires
        opt_val(t) <= 1,
        opt_val(h) <= 1,
        opt_val(v) <= 1,
        opt_val(n) <= 1,
        opt_val(z) <= 1,
        opt_val(c) <= 1,
    ensures
        spec_bit(spec_set_flags(f, None, t, h, v, n, z, c), FLAG_I) == spec_bit(f, FLAG_I),
{
    lemma_flag_pack_bit7();
    lemma_masked_write_keeps_bit7();
}

} // verus!
