//! Small matrix utilities: the 2x2 determinant and row-major
//! identity matrices.

use vstd::prelude::*;

verus! {

/// The determinant of the 2x2 matrix with rows `[a, b]` and `[c, d]`.
pub open spec fn det2_spec(a: int, b: int, c: int, d: int) -> int {
    a * d - b * c
}

/// Determinant of an explicit 2x2 integer matrix with rows `[a, b]`
/// and `[c, d]`, by the `a * d - b * c` formula.
pub fn determinant2(a: i64, b: i64, c: i64, d: i64) -> (r: i64)
    requires
        i64::MIN <= a * d <= i64::MAX,
        i64::MIN <= b * c <= i64::MAX,
        i64::MIN <= a * d - b * c <= i64::MAX,
    ensures
        r == det2_spec(a as int, b as int, c as int, d as int),
{
    a * d - b * c
}

/// The row-major `n` by `n` identity matrix: ones on the diagonal and
/// zeros everywhere else.
pub fn identity(n: usize) -> (m: Vec<Vec<i64>>)
    ensures
        m@.len() == n,
        forall|i: int| 0 <= i < n ==> #[trigger] m@[i]@.len() == n,
        forall|i: int, j: int|
            0 <= i < n && 0 <= j < n ==> #[trigger] m@[i]@[j] == (if i == j {
                1i64
            } else {
                0i64
            }),
{
    let mut m: Vec<Vec<i64>> = Vec::new();
    let mut i: usize = 0;
    while i < n
        invariant
            0 <= i <= n,
            m@.len() == i,
            forall|r: int| 0 <= r < i ==> #[trigger] m@[r]@.len() == n,
            forall|r: int, c: int|
                0 <= r < i && 0 <= c < n ==> #[trigger] m@[r]@[c] == (if r == c {
                    1i64
                } else {
                    0i64
                }),
        decreases n - i,
    {
        let mut row: Vec<i64> = Vec::new();
        let mut j: usize = 0;
        while j < n
            invariant
                0 <= j <= n,
                row@.len() == j,
                forall|c: int| 0 <= c < j ==> #[trigger] row@[c] == (if i == c {
                    1i64
                } else {
                    0i64
                }),
            decreases n - j,
        {
            if i == j {
                row.push(1);
            } else {
                row.push(0);
            }
            j = j + 1;
        }
        m.push(row);
        i = i + 1;
    }
    m
}

} // verus!
