//! Integer series summation: iterative range sums, the sum of the first
//! `n` odd numbers, and a left fold of multiplication over a range.

use vstd::prelude::*;
use crate::scalar::times;

verus! {

/// The sum of the integers `0, 1, ..., n - 1`; zero when `n <= 0`.
pub open spec fn sum_below(n: int) -> int
    decreases n,
{
    if n <= 0 {
        0
    } else {
        sum_below(n - 1) + (n - 1)
    }
}

/// The sum of the first `n` odd numbers `1, 3, ..., 2*n - 1`;
/// zero when `n <= 0`.
pub open spec fn sum_odds_below(n: int) -> int
    decreases n,
{
    if n <= 0 {
        0
    } else {
        sum_odds_below(n - 1) + (2 * (n - 1) + 1)
    }
}

/// The product of the integers `lo, lo + 1, ..., hi - 1`;
/// one when the range is empty.
pub open spec fn product_range(lo: int, hi: int) -> int
    decreases hi - lo,
{
    if hi <= lo {
        1
    } else {
        product_range(lo, hi - 1) * (hi - 1)
    }
}

/// For non-negative `n`, twice the sum of `0..n` is `n * (n - 1)`.
pub proof fn lemma_sum_below_closed_form(n: int)
    requires
        0 <= n,
    ensures
        2 * sum_below(n) == n * (n - 1),
    decreases n,
{
    if n > 0 {
        lemma_sum_below_closed_form(n - 1);
        let s: int = sum_below(n - 1);
        assert(sum_below(n) == s + (n - 1));
        assert(2 * (s + (n - 1)) == n * (n - 1)) by (nonlinear_arith)
            requires
                2 * s == (n - 1) * ((n - 1) - 1),
        ;
    } else {
        assert(n * (n - 1) == 0) by (nonlinear_arith)
            requires
                n == 0,
        ;
    }
}

/// The closed-form triangular number matches the iterative sum:
/// for non-negative `n`, `n * (n + 1) / 2` equals the sum of `0..n + 1`.
pub proof fn lemma_triangular_matches_iter_sum(n: int)
    requires
        0 <= n,
    ensures
        n * (n + 1) / 2 == sum_below(n + 1),
{
    lemma_sum_below_closed_form(n + 1);
    assert(n * (n + 1) == (n + 1) * n) by (nonlinear_arith);
}

/// The sum of the first `n` odd numbers is the perfect square `n * n`.
pub proof fn lemma_sum_odds_is_square(n: int)
    requires
        0 <= n,
    ensures
        sum_odds_below(n) == n * n,
    decreases n,
{
    if n > 0 {
        lemma_sum_odds_is_square(n - 1);
        let s: int = sum_odds_below(n - 1);
        assert(sum_odds_below(n) == s + (2 * (n - 1) + 1));
        assert(s + (2 * (n - 1) + 1) == n * n) by (nonlinear_arith)
            requires
                s == (n - 1) * (n - 1),
        ;
    } else {
        assert(n * n == 0) by (nonlinear_arith)
            requires
                n == 0,
        ;
    }
}

/// The range sum grows as the range grows.
proof fn lemma_sum_below_monotonic(i: int, n: int)
    requires
        i <= n,
    ensures
        sum_below(i) <= sum_below(n),
    decreases n - i,
{
    if i < n {
        lemma_sum_below_monotonic(i, n - 1);
    }
}

/// The odd-number sum grows as the range grows.
proof fn lemma_sum_odds_monotonic(i: int, n: int)
    requires
        i <= n,
    ensures
        sum_odds_below(i) <= sum_odds_below(n),
    decreases n - i,
{
    if i < n {
        lemma_sum_odds_monotonic(i, n - 1);
    }
}

/// Iterative sum of the range `0..n`, empty when `n <= 0`.
pub fn iter_sum(n: i64) -> (r: i64)
    requires
        n <= 0 || n * (n - 1) / 2 <= i64::MAX,
    ensures
        r == sum_below(n as int),
{
    if n <= 0 {
        return 0;
    }
    proof {
        lemma_triangular_matches_iter_sum(n - 1);
        assert((n - 1) * (n - 1 + 1) == n * (n - 1)) by (nonlinear_arith);
    }
    let mut acc: i64 = 0;
    let mut i: i64 = 0;
    while i < n
        invariant
            0 <= i <= n,
            acc == sum_below(i as int),
            sum_below(n as int) <= i64::MAX,
        decreases n - i,
    {
        proof {
            lemma_sum_below_monotonic(i + 1, n as int);
        }
        acc = acc + i;
        i = i + 1;
    }
    acc
}

/// Iterative sum of the first `n` odd numbers, empty when `n <= 0`.
pub fn iter_sum_2(n: i64) -> (r: i64)
    requires
        n <= 0 || n * n <= i64::MAX,
    ensures
        r == sum_odds_below(n as int),
{
    if n <= 0 {
        return 0;
    }
    proof {
        lemma_sum_odds_is_square(n as int);
    }
    let mut acc: i64 = 0;
    let mut i: i64 = 0;
    while i < n
        invariant
            0 <= i <= n,
            acc == sum_odds_below(i as int),
            sum_odds_below(n as int) <= i64::MAX,
            (n as int) * (n as int) <= i64::MAX,
        decreases n - i,
    {
        proof {
            lemma_sum_odds_monotonic(i + 1, n as int);
            assert(sum_odds_below(i + 1) == sum_odds_below(i as int) + (2 * (i as int) + 1));
            assert(2 * (i as int) + 1 <= i64::MAX) by (nonlinear_arith)
                requires
                    0 <= i < n,
                    (n as int) * (n as int) <= i64::MAX,
            ;
        }
        acc = acc + (2 * i + 1);
        i = i + 1;
    }
    acc
}

/// Every product of a range starting at one or above is at least one.
proof fn lemma_product_range_at_least_one(lo: int, hi: int)
    requires
        1 <= lo,
    ensures
        1 <= product_range(lo, hi),
    decreases hi - lo,
{
    if lo < hi {
        lemma_product_range_at_least_one(lo, hi - 1);
        assert(1 <= product_range(lo, hi - 1) * (hi - 1)) by (nonlinear_arith)
            requires
                1 <= product_range(lo, hi - 1),
                1 <= hi - 1,
        ;
    }
}

/// The range product grows as the range grows, for ranges starting
/// at one or above.
proof fn lemma_product_range_monotonic(lo: int, i: int, n: int)
    requires
        1 <= lo,
        lo <= i <= n,
    ensures
        product_range(lo, i) <= product_range(lo, n),
    decreases n - i,
{
    if i < n {
        lemma_product_range_monotonic(lo, i, n - 1);
        lemma_product_range_at_least_one(lo, n - 1);
        assert(product_range(lo, n - 1) <= product_range(lo, n - 1) * (n - 1)) by (nonlinear_arith)
            requires
                1 <= product_range(lo, n - 1),
                1 <= n - 1,
        ;
    }
}

/// Left fold of multiplication over the range `lo..hi`, starting from one:
/// the running product of `lo, lo + 1, ..., hi - 1`.
pub fn fold_times(lo: i64, hi: i64) -> (r: i64)
    requires
        1 <= lo,
        product_range(lo as int, hi as int) <= i64::MAX,
    ensures
        r == product_range(lo as int, hi as int),
{
    if hi <= lo {
        return 1;
    }
    let mut acc: i64 = 1;
    let mut i: i64 = lo;
    while i < hi
        invariant
            1 <= lo <= i <= hi,
            acc == product_range(lo as int, i as int),
            product_range(lo as int, hi as int) <= i64::MAX,
        decreases hi - i,
    {
        proof {
            lemma_product_range_monotonic(lo as int, i + 1, hi as int);
            lemma_product_range_at_least_one(lo as int, i as int);
            assert(1 <= product_range(lo as int, i as int) * i) by (nonlinear_arith)
                requires
                    1 <= product_range(lo as int, i as int),
                    1 <= i,
            ;
        }
        acc = times(acc, i);
        i = i + 1;
    }
    acc
}

} // verus!
