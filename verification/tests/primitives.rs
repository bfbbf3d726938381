use karatsuba::poly::{add, degree, eq, mul_by_monomial, sub};

#[test]
fn degree_is_length_less_one() {
    let constant: Vec<u64> = vec![5];
    let cubic: Vec<u64> = vec![1, 2, 3, 0];
    assert_eq!(degree(&constant), 0);
    assert_eq!(degree(&cubic), 3);
}

#[test]
fn add_of_equal_lengths() {
    let x: Vec<u64> = vec![1, 2, 3];
    let y: Vec<u64> = vec![10, 20, 30];
    assert_eq!(add(&x, &y), vec![11, 22, 33]);
}

#[test]
fn add_fills_the_shorter_operand_with_zeros() {
    let x: Vec<u64> = vec![1, 2, 3, 4];
    let y: Vec<u64> = vec![10, 20];
    assert_eq!(add(&x, &y), vec![11, 22, 3, 4]);
    assert_eq!(add(&y, &x), vec![11, 22, 3, 4]);
}

#[test]
fn add_wraps_around() {
    let x: Vec<u64> = vec![u64::MAX, 1];
    let y: Vec<u64> = vec![1, u64::MAX];
    assert_eq!(add(&x, &y), vec![0, 0]);
}

#[test]
fn sub_of_equal_lengths() {
    let x: Vec<u64> = vec![10, 20, 30];
    let y: Vec<u64> = vec![1, 2, 3];
    assert_eq!(sub(&x, &y), vec![9, 18, 27]);
}

#[test]
fn sub_fills_the_shorter_operand_with_zeros() {
    let x: Vec<u64> = vec![10, 20, 30];
    let y: Vec<u64> = vec![1];
    assert_eq!(sub(&x, &y), vec![9, 20, 30]);
    assert_eq!(sub(&y, &x), vec![u64::MAX - 8, u64::MAX - 19, u64::MAX - 29]);
}

#[test]
fn sub_undoes_add() {
    let x: Vec<u64> = vec![7, u64::MAX, 0];
    let y: Vec<u64> = vec![u64::MAX, 3, 12];
    assert_eq!(sub(&add(&x, &y), &y), x);
}

#[test]
fn monomial_shift_prepends_zeros() {
    let x: Vec<u64> = vec![1, 2];
    assert_eq!(mul_by_monomial(&x, 0, 1), vec![1, 2]);
    assert_eq!(mul_by_monomial(&x, 3, 1), vec![0, 0, 0, 1, 2]);
    assert_eq!(x, vec![1, 2]);
}

#[test]
fn monomial_scales_every_coefficient() {
    let x: Vec<u64> = vec![1, 2];
    assert_eq!(mul_by_monomial(&x, 2, 3), vec![0, 0, 3, 6]);
    assert_eq!(mul_by_monomial(&x, 1, 0), vec![0, 0, 0]);
}

#[test]
fn eq_ignores_trailing_zeros() {
    let short: Vec<u64> = vec![1, 2];
    let long: Vec<u64> = vec![1, 2, 0, 0];
    assert!(eq(&short, &long));
    assert!(eq(&long, &short));
    assert!(eq(&short, &short));
}

#[test]
fn eq_sees_what_lies_past_the_shorter_operand() {
    let short: Vec<u64> = vec![1];
    let long: Vec<u64> = vec![1, 5];
    assert!(!eq(&short, &long));
    assert!(!eq(&long, &short));
}

#[test]
fn eq_tells_coefficients_apart() {
    let x: Vec<u64> = vec![1, 2, 3];
    let y: Vec<u64> = vec![1, 9, 3];
    assert!(!eq(&x, &y));
}

#[test]
fn eq_of_zero_polynomials_of_any_length() {
    let a: Vec<u64> = vec![0];
    let b: Vec<u64> = vec![0, 0, 0];
    let empty: Vec<u64> = vec![];
    assert!(eq(&a, &b));
    assert!(eq(&empty, &b));
}

#[test]
fn add_commutes_and_associates() {
    let x: Vec<u64> = vec![1, 2, 3];
    let y: Vec<u64> = vec![10, u64::MAX];
    let z: Vec<u64> = vec![7, 7, 7, 7];
    assert_eq!(add(&x, &y), add(&y, &x));
    assert_eq!(add(&add(&x, &y), &z), add(&x, &add(&y, &z)));
}

#[test]
fn eq_after_sub_of_a_longer_operand() {
    let x: Vec<u64> = vec![4, 5];
    let y: Vec<u64> = vec![1, 2, 3, 4];
    let back = sub(&add(&x, &y), &y);
    assert_eq!(back, vec![4, 5, 0, 0]);
    assert!(eq(&back, &x));
}
