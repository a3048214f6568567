use numutil::{cross, dot, iter_sum, iter_sum_2, multiply, multiply_scalar, plus, vec_length};

#[test]
fn test_plus_commutes_on_samples() {
    for &(a, b) in &[(0, 0), (1, -1), (17, 25), (-100, 3), (i32::MAX - 1, 1)] {
        assert_eq!(plus(a, b), plus(b, a));
    }
}

#[test]
fn test_triangular_closed_form_matches_iter_sum() {
    for n in [0i64, 1, 2, 10, 100, 1000] {
        assert_eq!(n * (n + 1) / 2, iter_sum(n + 1));
    }
}

#[test]
fn test_iter_sum_empty_ranges() {
    assert_eq!(iter_sum(0), 0);
    assert_eq!(iter_sum(-5), 0);
    assert_eq!(iter_sum(1), 0);
}

#[test]
fn test_iter_sum_2_is_square() {
    for n in [0i64, 1, 2, 7, 100] {
        assert_eq!(iter_sum_2(n), n * n);
    }
    assert_eq!(iter_sum_2(-3), 0);
}

#[test]
fn test_dot_commutes() {
    let a = vec![3, -4, 5];
    let b = vec![2, 7, -1];
    assert_eq!(dot(a.clone(), b.clone()), dot(b, a));
}

#[test]
fn test_cross_anticommutes() {
    let a = vec![3, -4, 5];
    let b = vec![2, 7, -1];
    let ab = cross(a.clone(), b.clone());
    let ba = cross(b, a);
    for k in 0..3 {
        assert_eq!(ab[k], -ba[k]);
    }
}

#[test]
fn test_multiply_truncating_zip() {
    assert_eq!(multiply(vec![1, 2, 3], vec![4, 5]), vec![4, 10]);
    assert_eq!(multiply(vec![], vec![4, 5]), vec![]);
    assert_eq!(multiply(vec![1, 2], vec![2, 3]), vec![2, 6]);
}

#[test]
fn test_multiply_scalar_by_zero_and_negative() {
    assert_eq!(multiply_scalar(vec![2, 6], 3), vec![6, 18]);
    assert_eq!(multiply_scalar(vec![2, 6], 0), vec![0, 0]);
    assert_eq!(multiply_scalar(vec![2, -6], -1), vec![-2, 6]);
}

#[test]
fn test_vec_length_truncates() {
    // 1 + 1 + 1 = 3 is not a perfect square: the floor square root is 1
    assert_eq!(vec_length(vec![1, 1, 1]), 1);
    assert_eq!(vec_length(vec![0, 0, 0]), 0);
    assert_eq!(vec_length(vec![2, 3, 6]), 7);
    assert_eq!(vec_length(vec![2, 3, 7]), 7);
}
