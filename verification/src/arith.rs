//! Integer helpers shared by the valuation formulas: magnitudes and
//! division that rounds toward zero.

use vstd::prelude::*;

verus! {

/// Distance of `x` from zero.
pub open spec fn magnitude(x: int) -> nat {
    if x >= 0 {
        x as nat
    } else {
        (-x) as nat
    }
}

/// Quotient of `a` by a positive `b`, rounded toward zero.
pub open spec fn div_toward_zero(a: int, b: int) -> int
    recommends
        b > 0,
{
    if a >= 0 {
        a / b
    } else {
        -((-a) / b)
    }
}

/// Rounding toward zero divides the magnitude and keeps the sign.
pub proof fn lemma_div_toward_zero_magnitude(a: int, b: int)
    requires
        b > 0,
    ensures
        magnitude(div_toward_zero(a, b)) == magnitude(a) as int / b,
        a >= 0 ==> div_toward_zero(a, b) >= 0,
        a <= 0 ==> div_toward_zero(a, b) <= 0,
{
    if a >= 0 {
        assert(a / b >= 0) by (nonlinear_arith)
            requires
                a >= 0,
                b > 0,
        ;
    } else {
        assert((-a) / b >= 0) by (nonlinear_arith)
            requires
                -a >= 0,
                b > 0,
        ;
    }
}

/// `|x|` as an unsigned value; `i64::MIN` has one too.
pub fn unsigned_magnitude(x: i64) -> (m: u64)
    ensures
        m == magnitude(x as int),
{
    if x >= 0 {
        x as u64
    } else {
        let wide: i128 = -(x as i128);
        wide as u64
    }
}

} // verus!
