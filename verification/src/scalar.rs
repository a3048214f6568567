//! Scalar integer arithmetic: addition, multiplication and absolute value.

use vstd::prelude::*;

verus! {

/// The mathematical sum of two integers.
pub open spec fn plus_spec(x: int, y: int) -> int {
    x + y
}

/// The mathematical product of two integers.
pub open spec fn times_spec(x: int, y: int) -> int {
    x * y
}

/// The absolute value of an integer.
pub open spec fn abs_spec(x: int) -> int {
    if x < 0 {
        -x
    } else {
        x
    }
}

/// Integer addition. The sum must stay inside the `i32` range.
pub fn plus(x: i32, y: i32) -> (r: i32)
    requires
        i32::MIN <= x + y <= i32::MAX,
    ensures
        r == plus_spec(x as int, y as int),
{
    x + y
}

/// Integer multiplication, also usable as a fold operator.
/// The product must stay inside the `i64` range.
pub fn times(x: i64, y: i64) -> (r: i64)
    requires
        i64::MIN <= x * y <= i64::MAX,
    ensures
        r == times_spec(x as int, y as int),
{
    x * y
}

/// Integer absolute value. `i64::MIN` has no representable absolute
/// value, so callers must avoid it.
pub fn abs(x: i64) -> (r: i64)
    requires
        x != i64::MIN,
    ensures
        r == abs_spec(x as int),
{
    if x < 0 {
        -x
    } else {
        x
    }
}

/// Addition is commutative: both operand orders give the same sum.
pub proof fn lemma_plus_commutative(a: int, b: int)
    ensures
        plus_spec(a, b) == plus_spec(b, a),
{
}

/// Multiplication is commutative: both operand orders give the same product.
pub proof fn lemma_times_commutative(a: int, b: int)
    ensures
        times_spec(a, b) == times_spec(b, a),
{
}

} // verus!
