//! Exact comparison of two products of 128-bit factors, through 256-bit
//! values held as two 128-bit halves.
use vstd::prelude::*;

verus! {

pub open spec fn half_base() -> int {
    0x1_0000_0000_0000_0000
}

pub open spec fn full_base() -> int {
    half_base() * half_base()
}

/// The value of a 256-bit number given as its high and low halves.
pub open spec fn wide_value(w: (u128, u128)) -> int {
    w.0 * full_base() + w.1
}

/// `a * b`, exactly, as high and low halves.
pub fn mul_wide(a: u128, b: u128) -> (r: (u128, u128))
    ensures
        wide_value(r) == a * b,
{
    let base: u128 = 0x1_0000_0000_0000_0000;
    let a1 = a / base;
    let a0 = a % base;
    let b1 = b / base;
    let b0 = b % base;
    proof {
        assert(a1 < half_base() && b1 < half_base()) by (nonlinear_arith)
            requires
                a1 == a / base,
                b1 == b / base,
                base == half_base(),
                a < full_base(),
                b < full_base(),
        ;
        assert(a0 * b0 < full_base() && a0 * b1 < full_base() && a1 * b0 < full_base() && a1 * b1
            < full_base()) by (nonlinear_arith)
            requires
                0 <= a0 < half_base(),
                0 <= b0 < half_base(),
                0 <= a1 < half_base(),
                0 <= b1 < half_base(),
        ;
    }
    let p00 = a0 * b0;
    let p01 = a0 * b1;
    let p10 = a1 * b0;
    let p11 = a1 * b1;
    let mid = p00 / base + p01 % base + p10 % base;
    let lo = (mid % base) * base + p00 % base;
    proof {
        let hi_int = p11 + p01 / base + p10 / base + mid / base;
        assert(a * b == (a1 * b1) * full_base() + (a0 * b1 + a1 * b0) * half_base() + a0 * b0)
            by (nonlinear_arith)
            requires
                a == a1 * half_base() + a0,
                b == b1 * half_base() + b0,
                full_base() == half_base() * half_base(),
        ;
        assert(a * b == hi_int * full_base() + lo) by (nonlinear_arith)
            requires
                a * b == p11 * full_base() + (p01 + p10) * half_base() + p00,
                p00 == (p00 / base) * half_base() + p00 % base,
                p01 == (p01 / base) * half_base() + p01 % base,
                p10 == (p10 / base) * half_base() + p10 % base,
                mid == p00 / base + p01 % base + p10 % base,
                mid == (mid / base) * half_base() + mid % base,
                lo == (mid % base) * half_base() + p00 % base,
                hi_int == p11 + p01 / base + p10 / base + mid / base,
                base == half_base(),
                full_base() == half_base() * half_base(),
        ;
        assert(hi_int < full_base()) by (nonlinear_arith)
            requires
                a * b == hi_int * full_base() + lo,
                0 <= a < full_base(),
                0 <= b < full_base(),
                0 <= lo,
                full_base() > 0,
        ;
    }
    let hi = p11 + p01 / base + p10 / base + mid / base;
    (hi, lo)
}

/// Whether the first 256-bit value exceeds the second.
pub fn wide_gt(x: (u128, u128), y: (u128, u128)) -> (r: bool)
    ensures
        r == (wide_value(x) > wide_value(y)),
{
    proof {
        assert(x.0 > y.0 ==> wide_value(x) > wide_value(y)) by (nonlinear_arith)
            requires
                wide_value(x) == x.0 * full_base() + x.1,
                wide_value(y) == y.0 * full_base() + y.1,
                0 <= x.1,
                y.1 < full_base(),
        ;
        assert(x.0 < y.0 ==> wide_value(x) < wide_value(y)) by (nonlinear_arith)
            requires
                wide_value(x) == x.0 * full_base() + x.1,
                wide_value(y) == y.0 * full_base() + y.1,
                0 <= y.1,
                x.1 < full_base(),
        ;
    }
    x.0 > y.0 || (x.0 == y.0 && x.1 > y.1)
}

} // verus!
