//! Fixed-point helpers shared by the filters and the output scaling.

use vstd::prelude::*;

verus! {

/// Number of fixed-point units in one device count: filtered values are held
/// in millionths of a count.
pub const UNIT: i64 = 1_000_000;

/// Denominator of the ratios (decay, sensitivity), which are given in
/// permille.
pub const PERMILLE: i64 = 1000;

/// Quotient of `a` by a positive `b`, rounded toward zero.
pub open spec fn trunc_div(a: int, b: int) -> int {
    if a >= 0 {
        a / b
    } else {
        -((-a) / b)
    }
}

/// Magnitude of an integer.
pub open spec fn magnitude(v: int) -> int {
    if v >= 0 {
        v
    } else {
        -v
    }
}

/// Rounding toward zero never grows the magnitude, keeps the sign, and
/// commutes with negation.
pub proof fn lemma_trunc_div_bounds(a: int, b: int)
    requires
        b > 0,
    ensures
        magnitude(trunc_div(a, b)) == magnitude(a) / b,
        magnitude(trunc_div(a, b)) * b <= magnitude(a),
        a >= 0 ==> trunc_div(a, b) >= 0,
        a <= 0 ==> trunc_div(a, b) <= 0,
        trunc_div(-a, b) == -trunc_div(a, b),
{
    let m = magnitude(a);
    assert(m / b >= 0 && (m / b) * b <= m) by (nonlinear_arith)
        requires
            m >= 0,
            b > 0,
    ;
}

} // verus!
