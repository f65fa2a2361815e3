use vstd::prelude::*;

verus! {

/// Integer division rounding toward zero, as Rust's `/` and a float-to-int
/// cast both do.
pub open spec fn trunc_div(a: int, d: int) -> int {
    if a >= 0 {
        a / d
    } else {
        -((-a) / d)
    }
}

/// Division of an `i64` by a positive divisor, rounding toward zero.
pub fn trunc_div_i64(a: i64, d: i64) -> (r: i64)
    requires
        d > 0,
        a > i64::MIN,
    ensures
        r == trunc_div(a as int, d as int),
{
    if a >= 0 {
        a / d
    } else {
        -((-a) / d)
    }
}

} // verus!
