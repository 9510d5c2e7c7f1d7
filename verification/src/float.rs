//! Single-precision numbers by their IEEE 754 bit patterns.
//!
//! The service takes real-valued parameters. They are held here as the 32 bits
//! of an `f32`, which `f32::to_bits` and `f32::from_bits` convert without
//! loss, and their values are read off the bits with integer arithmetic.

use vstd::arithmetic::power2::{
    lemma2_to64, lemma_pow2_adds, lemma_pow2_pos, lemma_pow2_strictly_increases, pow2,
};
use vstd::prelude::*;

verus! {

/// The bits of 0.8.
pub const DEFAULT_TEMPERATURE: u32 = 0x3f4c_cccd;

/// Whether the sign bit is set.
pub open spec fn is_negative(bits: u32) -> bool {
    bits >= 0x8000_0000
}

/// The biased exponent: bits 23 to 30.
pub open spec fn exponent(bits: u32) -> nat {
    ((bits as nat) / 0x80_0000) % 0x100
}

/// The fraction: bits 0 to 22.
pub open spec fn fraction(bits: u32) -> nat {
    (bits as nat) % 0x80_0000
}

/// Whether the bits stand for a number, and not for an infinity or a NaN.
pub open spec fn is_number(bits: u32) -> bool {
    exponent(bits) != 0xff
}

/// The absolute value of a number, in units of 2^-149, the smallest positive
/// single-precision value. Every number is a whole multiple of that unit.
pub open spec fn magnitude(bits: u32) -> nat {
    if exponent(bits) == 0 {
        fraction(bits)
    } else {
        (0x80_0000 + fraction(bits)) * pow2((exponent(bits) - 1) as nat)
    }
}

/// The greatest integer that is not above the number.
pub open spec fn floor(bits: u32) -> int {
    let unit = pow2(149) as int;
    let size = magnitude(bits) as int;
    if is_negative(bits) {
        -((size + unit - 1) / unit)
    } else {
        size / unit
    }
}

/// The numbers from 0 up to, but not including, 3: those whose floor is 0, 1
/// or 2. Negative zero is one of them.
pub open spec fn floor_is_0_to_2(bits: u32) -> bool {
    is_number(bits) && 0 <= floor(bits) <= 2
}

/// Among the bit patterns, the numbers whose floor is 0, 1 or 2 are those
/// below the pattern of 3.0, and negative zero.
pub proof fn lemma_floor_is_0_to_2(bits: u32)
    ensures
        floor_is_0_to_2(bits) <==> (bits < 0x4040_0000 || bits == 0x8000_0000),
{
    let e = exponent(bits);
    let f = fraction(bits);
    let m = magnitude(bits) as int;
    let unit = pow2(149) as int;
    let p127 = pow2(127) as int;
    lemma2_to64();
    lemma_pow2_adds(22, 127);
    lemma_pow2_pos(127);
    assert(unit == 0x40_0000 * p127);
    assert(f < 0x80_0000);
    assert(e < 0x100);
    if is_negative(bits) {
        assert(bits as nat == 0x8000_0000 + e * 0x80_0000 + f);
        if e > 0 {
            lemma_pow2_pos((e - 1) as nat);
            let p = pow2((e - 1) as nat) as int;
            assert(m >= 1) by (nonlinear_arith)
                requires
                    m == (0x80_0000 + f) * p,
                    p >= 1,
            ;
        }
        assert(bits == 0x8000_0000 <==> m == 0);
        assert((m + unit - 1) / unit == 0 <==> m == 0) by (nonlinear_arith)
            requires
                m >= 0,
                unit > 0,
        ;
        assert((m + unit - 1) / unit >= 0) by (nonlinear_arith)
            requires
                m >= 0,
                unit > 0,
        ;
    } else {
        assert(bits as nat == e * 0x80_0000 + f);
        assert(0 <= m / unit <= 2 <==> m < 3 * unit) by (nonlinear_arith)
            requires
                m >= 0,
                unit > 0,
        ;
        if e == 0 {
            assert(m < 3 * unit) by (nonlinear_arith)
                requires
                    m < 0x80_0000,
                    unit == 0x40_0000 * p127,
                    p127 >= 1,
            ;
        } else {
            let p = pow2((e - 1) as nat) as int;
            lemma_pow2_pos((e - 1) as nat);
            if e <= 127 {
                if e < 127 {
                    lemma_pow2_strictly_increases((e - 1) as nat, 126);
                }
                lemma_pow2_adds(1, 126);
                assert(2 * p <= p127);
                assert(m < 3 * unit) by (nonlinear_arith)
                    requires
                        m == (0x80_0000 + f) * p,
                        f < 0x80_0000,
                        p >= 1,
                        2 * p <= p127,
                        unit == 0x40_0000 * p127,
                ;
            } else if e == 128 {
                assert(m < 3 * unit <==> f < 0x40_0000) by (nonlinear_arith)
                    requires
                        m == (0x80_0000 + f) * p127,
                        p127 >= 1,
                        unit == 0x40_0000 * p127,
                ;
            } else {
                if e > 129 {
                    lemma_pow2_strictly_increases(128, (e - 1) as nat);
                }
                lemma_pow2_adds(1, 127);
                assert(p >= 2 * p127);
                assert(m >= 3 * unit) by (nonlinear_arith)
                    requires
                        m == (0x80_0000 + f) * p,
                        f >= 0,
                        p >= 2 * p127,
                        p127 >= 1,
                        unit == 0x40_0000 * p127,
                ;
            }
        }
    }
}

} // verus!
