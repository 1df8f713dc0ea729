use vstd::prelude::*;
use vstd::math::abs;

verus! {

/// The value of one unit (`1.0`) in 16.16 fixed point.
pub const FP_ONE: i32 = 65536;

/// Whether an integer value fits an `i32`.
pub open spec fn fits_i32(v: int) -> bool {
    i32::MIN <= v <= i32::MAX
}

/// The integer part of a fixed-point value, rounded toward negative infinity (`x >> 16`).
pub open spec fn spec_to_int(x: int) -> int {
    x / 65536
}

/// An integer as a fixed-point value (`x << 16`).
pub open spec fn spec_to_fp(x: int) -> int {
    x * 65536
}

/// Fixed-point product: the exact product, shifted down by 16 bits (rounded toward negative infinity).
pub open spec fn spec_mul(a: int, b: int) -> int {
    (a * b) / 65536
}

/// Quotient rounded toward zero, as Rust's `/` on integers computes it.
pub open spec fn trunc_div(n: int, d: int) -> int {
    let q: int = abs(n) as int / abs(d) as int;
    if (n >= 0) == (d > 0) || n == 0 {
        q
    } else {
        -q
    }
}

/// Fixed-point quotient: `(a << 16) / b`, rounded toward zero.
pub open spec fn spec_div(a: int, b: int) -> int {
    trunc_div(a * 65536, b)
}

/// A fixed-point value with its fractional bits cleared (rounded toward negative infinity).
pub open spec fn spec_floor(x: int) -> int {
    (x / 65536) * 65536
}

/// Euclidean quotient by a positive divisor, which rounds toward negative infinity.
pub fn floor_div_i64(a: i64, b: i64) -> (r: i64)
    requires
        b > 0,
    ensures
        r == a as int / b as int,
{
    if a >= 0 {
        a / b
    } else {
        let n: i64 = -(a + 1);
        let q: i64 = n / b;
        proof {
            let an = a as int;
            let bn = b as int;
            let qn = q as int;
            assert(n as int == qn * bn + (n as int % bn)) by (nonlinear_arith)
                requires bn > 0, qn == n as int / bn;
            assert(0 <= n as int % bn < bn);
            assert(an == (-qn - 1) * bn + (bn - 1 - n as int % bn)) by (nonlinear_arith)
                requires n as int == qn * bn + (n as int % bn), n as int == -(an + 1);
            vstd::arithmetic::div_mod::lemma_fundamental_div_mod_converse(
                an, bn, -qn - 1, bn - 1 - n as int % bn,
            );
        }
        -q - 1
    }
}

/// Euclidean quotient of a 128-bit value by a positive divisor.
pub fn floor_div_i128(a: i128, b: i128) -> (r: i128)
    requires
        b > 0,
        -0x1_0000_0000_0000_0000_0000_0000 <= a <= 0x1_0000_0000_0000_0000_0000_0000,
    ensures
        r == a as int / b as int,
{
    if a >= 0 {
        a / b
    } else {
        let n: i128 = -(a + 1);
        let q: i128 = n / b;
        proof {
            let an = a as int;
            let bn = b as int;
            let qn = q as int;
            assert(n as int == qn * bn + (n as int % bn)) by (nonlinear_arith)
                requires bn > 0, qn == n as int / bn;
            assert(0 <= n as int % bn < bn);
            assert(an == (-qn - 1) * bn + (bn - 1 - n as int % bn)) by (nonlinear_arith)
                requires n as int == qn * bn + (n as int % bn), n as int == -(an + 1);
            vstd::arithmetic::div_mod::lemma_fundamental_div_mod_converse(
                an, bn, -qn - 1, bn - 1 - n as int % bn,
            );
        }
        -q - 1
    }
}

/// Converts an integer to 16.16 fixed point.
pub fn to_fp(x: i32) -> (r: i32)
    requires
        -32768 <= x < 32768,
    ensures
        r == spec_to_fp(x as int),
{
    x * FP_ONE
}

/// The integer part of a fixed-point value, rounded toward negative infinity.
pub fn to_i32(x: i32) -> (r: i32)
    ensures
        r == spec_to_int(x as int),
        -32768 <= r < 32768,
{
    floor_div_i64(x as i64, FP_ONE as i64) as i32
}

/// Fixed-point sum; exact.
pub fn add(a: i32, b: i32) -> (r: i32)
    requires
        fits_i32(a + b),
    ensures
        r == a + b,
{
    a + b
}

/// Fixed-point difference; exact.
pub fn sub(a: i32, b: i32) -> (r: i32)
    requires
        fits_i32(a - b),
    ensures
        r == a - b,
{
    a - b
}

/// Fixed-point product, computed in 64 bits.
pub fn mul(a: i32, b: i32) -> (r: i32)
    requires
        fits_i32(spec_mul(a as int, b as int)),
    ensures
        r == spec_mul(a as int, b as int),
{
    let p: i64 = (a as i64) * (b as i64);
    floor_div_i64(p, FP_ONE as i64) as i32
}

/// Fixed-point quotient, computed in 64 bits; the divisor must not be zero.
pub fn div(a: i32, b: i32) -> (r: i32)
    requires
        b != 0,
        fits_i32(spec_div(a as int, b as int)),
    ensures
        r == spec_div(a as int, b as int),
{
    let n: i64 = (a as i64) * (FP_ONE as i64);
    let na: i64 = if n < 0 { -n } else { n };
    let da: i64 = if b < 0 { -(b as i64) } else { b as i64 };
    let q: i64 = na / da;
    if (n >= 0) == (b > 0) || n == 0 {
        q as i32
    } else {
        (-q) as i32
    }
}

/// Clears the fractional bits of a fixed-point value.
pub fn floor(x: i32) -> (r: i32)
    ensures
        r == spec_floor(x as int),
{
    let q: i64 = floor_div_i64(x as i64, FP_ONE as i64);
    (q * (FP_ONE as i64)) as i32
}

/// Conversion of a value to 16.16 fixed point.
pub trait ToFixedPoint {
    /// Whether the value has a fixed-point form that fits an `i32`.
    spec fn fp_representable(&self) -> bool;

    /// The value's fixed-point form.
    spec fn fp_value(&self) -> int;

    fn to_fp(&self) -> (r: i32)
        requires
            self.fp_representable(),
        ensures
            r == self.fp_value(),
    ;
}

impl ToFixedPoint for i32 {
    open spec fn fp_representable(&self) -> bool {
        -32768 <= *self < 32768
    }

    open spec fn fp_value(&self) -> int {
        spec_to_fp(*self as int)
    }

    fn to_fp(&self) -> (r: i32) {
        to_fp(*self)
    }
}

/// Conversion of a fixed-point value back to an integer.
pub trait FromFixedPoint {
    /// The integer part of the value, rounded toward negative infinity.
    spec fn int_value(&self) -> int;

    fn to_i32(&self) -> (r: i32)
        ensures
            r == self.int_value(),
    ;
}

impl FromFixedPoint for i32 {
    open spec fn int_value(&self) -> int {
        spec_to_int(*self as int)
    }

    fn to_i32(&self) -> (r: i32) {
        to_i32(*self)
    }
}

/// Fixed-point arithmetic with the value as the left operand.
pub trait FixedPointMath {
    spec fn fp(&self) -> int;

    fn fp_add(&self, b: i32) -> (r: i32)
        requires
            fits_i32(self.fp() + b),
        ensures
            r == self.fp() + b,
    ;

    fn fp_sub(&self, b: i32) -> (r: i32)
        requires
            fits_i32(self.fp() - b),
        ensures
            r == self.fp() - b,
    ;

    fn fp_mul(&self, b: i32) -> (r: i32)
        requires
            fits_i32(spec_mul(self.fp(), b as int)),
        ensures
            r == spec_mul(self.fp(), b as int),
    ;

    fn fp_div(&self, b: i32) -> (r: i32)
        requires
            b != 0,
            fits_i32(spec_div(self.fp(), b as int)),
        ensures
            r == spec_div(self.fp(), b as int),
    ;
}

impl FixedPointMath for i32 {
    open spec fn fp(&self) -> int {
        *self as int
    }

    fn fp_add(&self, b: i32) -> (r: i32) {
        crate::fp::add(*self, b)
    }

    fn fp_sub(&self, b: i32) -> (r: i32) {
        crate::fp::sub(*self, b)
    }

    fn fp_mul(&self, b: i32) -> (r: i32) {
        crate::fp::mul(*self, b)
    }

    fn fp_div(&self, b: i32) -> (r: i32) {
        crate::fp::div(*self, b)
    }
}

/// Round trip between integers and fixed point: converting an integer to fixed point and back
/// gives it unchanged, and converting a fixed-point value to an integer and back loses less than
/// one unit of the 1/65536 step.
pub proof fn lemma_fixed_round_trip(x: int, f: int)
    requires
        -32768 <= x < 32768,
    ensures
        spec_to_int(spec_to_fp(x)) == x,
        spec_to_fp(spec_to_int(f)) <= f < spec_to_fp(spec_to_int(f)) + 65536,
{
    vstd::arithmetic::div_mod::lemma_div_multiples_vanish(x, 65536);
    assert(x * 65536 == 65536 * x);
    vstd::arithmetic::div_mod::lemma_fundamental_div_mod(f, 65536);
}

} // verus!
