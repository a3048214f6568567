//! Fixed-length integer vector algebra: element-wise and scalar products,
//! dot and cross products, and the truncated Euclidean length.

use vstd::prelude::*;

verus! {

/// The shorter of two sequence lengths.
pub open spec fn min_len(a: nat, b: nat) -> nat {
    if a <= b {
        a
    } else {
        b
    }
}

/// The dot product of the first three components of two vectors.
pub open spec fn dot_spec(a: Seq<i64>, b: Seq<i64>) -> int {
    a[0] * b[0] + a[1] * b[1] + a[2] * b[2]
}

/// One component of the right-handed cross product of two 3-vectors:
/// index 0, 1 or 2 of `a x b`.
pub open spec fn cross_component(a: Seq<i64>, b: Seq<i64>, k: int) -> int {
    if k == 0 {
        a[1] * b[2] - a[2] * b[1]
    } else if k == 1 {
        a[2] * b[0] - a[0] * b[2]
    } else {
        a[0] * b[1] - a[1] * b[0]
    }
}

/// The sum of the squares of the first three components of a vector.
pub open spec fn sum_of_squares(a: Seq<i64>) -> int {
    a[0] * a[0] + a[1] * a[1] + a[2] * a[2]
}

/// The dot product does not depend on the order of its operands.
pub proof fn lemma_dot_commutative(a: Seq<i64>, b: Seq<i64>)
    requires
        a.len() >= 3,
        b.len() >= 3,
    ensures
        dot_spec(a, b) == dot_spec(b, a),
{
}

/// The cross product is anticommutative: swapping the operands
/// negates every component.
pub proof fn lemma_cross_anticommutative(a: Seq<i64>, b: Seq<i64>)
    requires
        a.len() >= 3,
        b.len() >= 3,
    ensures
        forall|k: int|
            0 <= k < 3 ==> #[trigger] cross_component(a, b, k) == -cross_component(b, a, k),
{
}

/// Element-wise product of two vectors under truncating-zip semantics:
/// components beyond the shorter length are silently dropped.
pub fn multiply(a: Vec<i64>, b: Vec<i64>) -> (r: Vec<i64>)
    requires
        forall|i: int|
            0 <= i < min_len(a@.len(), b@.len()) ==> i64::MIN <= #[trigger] (a@[i] * b@[i])
                <= i64::MAX,
    ensures
        r@.len() == min_len(a@.len(), b@.len()),
        forall|i: int| 0 <= i < r@.len() ==> #[trigger] r@[i] == a@[i] * b@[i],
{
    let n = if a.len() <= b.len() {
        a.len()
    } else {
        b.len()
    };
    let mut r: Vec<i64> = Vec::new();
    let mut i: usize = 0;
    while i < n
        invariant
            0 <= i <= n,
            n == min_len(a@.len(), b@.len()),
            r@.len() == i,
            forall|k: int| 0 <= k < i ==> #[trigger] r@[k] == a@[k] * b@[k],
            forall|k: int|
                0 <= k < n ==> i64::MIN <= #[trigger] (a@[k] * b@[k]) <= i64::MAX,
        decreases n - i,
    {
        r.push(a[i] * b[i]);
        i = i + 1;
    }
    r
}

/// Scales every component of a vector by the same factor.
pub fn multiply_scalar(a: Vec<i64>, scalar: i64) -> (r: Vec<i64>)
    requires
        forall|i: int|
            0 <= i < a@.len() ==> i64::MIN <= #[trigger] (a@[i] * scalar) <= i64::MAX,
    ensures
        r@.len() == a@.len(),
        forall|i: int| 0 <= i < r@.len() ==> #[trigger] r@[i] == a@[i] * scalar,
{
    let mut r: Vec<i64> = Vec::new();
    let mut i: usize = 0;
    while i < a.len()
        invariant
            0 <= i <= a@.len(),
            r@.len() == i,
            forall|k: int| 0 <= k < i ==> #[trigger] r@[k] == a@[k] * scalar,
            forall|k: int|
                0 <= k < a@.len() ==> i64::MIN <= #[trigger] (a@[k] * scalar) <= i64::MAX,
        decreases a@.len() - i,
    {
        r.push(a[i] * scalar);
        i = i + 1;
    }
    r
}

/// Dot product of two vectors with at least three components each.
pub fn dot(a: Vec<i64>, b: Vec<i64>) -> (r: i64)
    requires
        a@.len() >= 3,
        b@.len() >= 3,
        forall|i: int| 0 <= i < 3 ==> i64::MIN <= #[trigger] (a@[i] * b@[i]) <= i64::MAX,
        i64::MIN <= a@[0] * b@[0] + a@[1] * b@[1] <= i64::MAX,
        i64::MIN <= dot_spec(a@, b@) <= i64::MAX,
    ensures
        r == dot_spec(a@, b@),
{
    a[0] * b[0] + a[1] * b[1] + a[2] * b[2]
}

/// Right-handed cross product of two vectors with at least three
/// components each; the result always has exactly three.
pub fn cross(a: Vec<i64>, b: Vec<i64>) -> (r: Vec<i64>)
    requires
        a@.len() >= 3,
        b@.len() >= 3,
        forall|i: int, j: int|
            0 <= i < 3 && 0 <= j < 3 ==> i64::MIN <= #[trigger] (a@[i] * b@[j]) <= i64::MAX,
        forall|k: int|
            0 <= k < 3 ==> i64::MIN <= #[trigger] cross_component(a@, b@, k) <= i64::MAX,
    ensures
        r@.len() == 3,
        forall|k: int| 0 <= k < 3 ==> #[trigger] r@[k] == cross_component(a@, b@, k),
{
    proof {
        assert(i64::MIN <= cross_component(a@, b@, 0) <= i64::MAX);
        assert(i64::MIN <= cross_component(a@, b@, 1) <= i64::MAX);
        assert(i64::MIN <= cross_component(a@, b@, 2) <= i64::MAX);
    }
    let rx = a[1] * b[2] - a[2] * b[1];
    let ry = a[2] * b[0] - a[0] * b[2];
    let rz = a[0] * b[1] - a[1] * b[0];
    let mut r: Vec<i64> = Vec::new();
    r.push(rx);
    r.push(ry);
    r.push(rz);
    r
}

/// Relies on `num::integer::sqrt`: the truncated principal square root
/// of a non-negative integer, with `r * r <= x < (r + 1) * (r + 1)`.
/// It panics on negative input, which the precondition rules out.
#[verifier::external_body]
fn isqrt(x: i64) -> (r: i64)
    requires
        x >= 0,
    ensures
        0 <= r,
        r * r <= x,
        x < (r + 1) * (r + 1),
{
    num::integer::sqrt(x)
}

/// The truncated (integer floor square root) Euclidean length of a
/// vector with at least three components.
pub fn vec_length(a: Vec<i64>) -> (r: i64)
    requires
        a@.len() >= 3,
        sum_of_squares(a@) <= i64::MAX,
    ensures
        0 <= r,
        r * r <= sum_of_squares(a@),
        sum_of_squares(a@) < (r + 1) * (r + 1),
{
    let x = a[0];
    let y = a[1];
    let z = a[2];
    proof {
        assert(0 <= x * x && 0 <= y * y && 0 <= z * z) by (nonlinear_arith);
    }
    let s = x * x + y * y + z * z;
    isqrt(s)
}

} // verus!
