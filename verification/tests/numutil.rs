use numutil::complex::Complex;
use numutil::matrix::determinant2;
use numutil::matrix::identity;
use numutil::{abs, cross, dot, fold_times, iter_sum, iter_sum_2, multiply, multiply_scalar,
    plus, times, vec_length};

#[test]
fn test_is_close() {
    // is_close's default comparator has no third argument for tolerance,
    // so this is false
    assert_ne!(
        is_close::default().is_close(std::f64::consts::PI, 3.14159),
        true
    );
}

#[test]
fn test_plus() {
    assert!(
        plus(1, 1) == 2,
        "DANGER: PHYSICS IS BROKEN. PLEASE STAY INSIDE. "
    )
}

#[test]
fn test_complex_sqrt() {
    println!("{}", num::complex::Complex::new(1f64, 1f64).sqrt());

    let c1 = Complex::new(-1, 0);
    let c2 = Complex::new(0, 1);
    assert!(c1 != c2);
}

#[test]
fn test_multiply_vectors() {
    let s = 3;
    let k = vec![1, 2];
    let j = vec![2, 3];
    let tmp = multiply(k, j);
    assert!(multiply_scalar(tmp, s) == vec![6, 18]);
}

#[test]
fn test_dot() {
    let k = vec![0, 1, 0];
    let j = vec![1, 0, 0];
    let result = dot(k, j);
    assert!(result == 0);
}

#[test]
fn test_cross() {
    let k = vec![0, 1, 0];
    let j = vec![1, 0, 0];
    let result = cross(k, j);
    assert!(result == vec![0, 0, -1]);
}

#[test]
fn test_iter_sum() {
    assert!(iter_sum(100) == 4950)
}

#[test]
fn test_iter_sum_2() {
    assert!(iter_sum_2(100) == 10000);
}

#[test]
fn test_iter_sum_3() {
    let result = (1..3i32)
        .map(|i| (4..7i32).map(|j| 3 * i * j).sum::<i32>())
        .sum::<i32>();
    assert!(result == 135);
}

#[test]
fn test_capital_i() {
    let result = (1..7).into_iter().fold(1, times);
    assert!(result == 720);
}

#[test]
fn test_abs() {
    assert!(abs(-5) == 5);
}

#[test]
fn test_vec_length() {
    assert!(vec_length(vec![0, 4, -3]) == 5);
}

#[test]
fn test_fold_times_matches_iterator_fold() {
    assert_eq!(fold_times(1, 7), (1..7i64).fold(1, times));
    assert_eq!(fold_times(3, 3), 1);
    assert_eq!(fold_times(2, 5), 24);
}

#[test]
fn test_determinant_2x2() {
    assert_eq!(determinant2(1, 0, 0, 1), 1);
    assert_eq!(determinant2(0, -1, 1, 0), 1);
    assert_eq!(determinant2(3, 8, 4, 6), -14);
}

#[test]
fn test_identity_matrix() {
    let m = identity(100);
    assert_eq!(m.len(), 100);
    for (i, row) in m.iter().enumerate() {
        assert_eq!(row.len(), 100);
        for (j, &v) in row.iter().enumerate() {
            assert_eq!(v, if i == j { 1 } else { 0 });
        }
    }
    let two = identity(2);
    assert_eq!(
        determinant2(two[0][0], two[0][1], two[1][0], two[1][1]),
        1
    );
}
