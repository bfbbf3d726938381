use karatsuba::polynomial::Polynomial;

fn poly(coefficients: &[u64]) -> Polynomial<u64> {
    match Polynomial::from(coefficients.to_vec()) {
        Some(p) => p,
        None => panic!("a polynomial has at least one coefficient"),
    }
}

#[test]
fn from_keeps_the_coefficients() {
    let p = poly(&[2, 1, 0]);
    assert_eq!(p.coefficients(), &[2, 1, 0]);
    assert_eq!(p.degree(), 2);
}

#[test]
fn from_refuses_an_empty_vector() {
    let empty: Vec<u64> = Vec::new();
    assert!(Polynomial::from(empty).is_none());
}

#[test]
fn clone_has_the_same_coefficients() {
    let p = poly(&[5, 0, 7]);
    let q = p.clone();
    assert_eq!(q.coefficients(), p.coefficients());
}

#[test]
fn polynomial_linear_times_quadratic() {
    let x = poly(&[2, 1]);
    let y = poly(&[4, 3, 2]);
    let schoolbook = x.mul_schoolbook(&y);
    let karatsuba = x.mul_karatsuba(&y);
    assert_eq!(schoolbook.coefficients(), &[8, 10, 7, 2]);
    assert_eq!(karatsuba.coefficients(), &[8, 10, 7, 2]);
    assert!(karatsuba.eq(&schoolbook));
}

#[test]
fn polynomial_square_for_every_threshold() {
    let x = poly(&[0, 1, 2, 3, 4]);
    let schoolbook = x.mul_schoolbook(&x);
    assert_eq!(schoolbook.coefficients(), &[0, 0, 1, 4, 10, 20, 25, 24, 16]);
    assert_eq!(x.mul_karatsuba(&x).coefficients(), schoolbook.coefficients());
    for threshold in [1usize, 2, 32] {
        let product = x.mul_karatsuba_with_threshold(&x, threshold);
        assert_eq!(product.coefficients().len(), 9);
        assert_eq!(product.coefficients(), schoolbook.coefficients());
        assert!(product.eq(&schoolbook));
    }
}

#[test]
fn polynomial_constants_multiply_as_scalars() {
    let a = poly(&[6]);
    let b = poly(&[7]);
    assert_eq!(a.mul_karatsuba(&b).coefficients(), &[42]);
    assert_eq!(a.mul_schoolbook(&b).coefficients(), &[42]);
}

#[test]
fn polynomial_degree_law() {
    let x = poly(&[1, 2, 3]);
    let y = poly(&[4, 5, 6, 7, 8]);
    assert_eq!(x.mul_karatsuba(&y).degree(), x.degree() + y.degree());
    assert_eq!(x.mul_schoolbook(&y).degree(), x.degree() + y.degree());
}

#[test]
fn polynomial_equality_ignores_trailing_zeros() {
    let p = poly(&[1, 2]);
    let q = poly(&[1, 2, 0, 0]);
    let r = poly(&[1, 2, 0, 1]);
    assert!(p.eq(&q));
    assert!(q.eq(&p));
    assert!(!p.eq(&r));
}

#[test]
fn polynomial_times_zero_equals_zero_of_any_length() {
    let x = poly(&[3, 1, 4, 1, 5]);
    let zero = poly(&[0]);
    let product = x.mul_karatsuba(&zero);
    assert!(product.eq(&zero));
    assert!(product.eq(&poly(&[0, 0, 0])));
    assert_eq!(product.coefficients(), &[0, 0, 0, 0, 0]);
}

#[test]
fn polynomial_times_one_is_the_polynomial() {
    let x = poly(&[3, 1, 4, 1, 5]);
    let one = poly(&[1]);
    assert_eq!(x.mul_karatsuba(&one).coefficients(), x.coefficients());
    assert_eq!(one.mul_karatsuba(&x).coefficients(), x.coefficients());
}

#[test]
fn polynomial_renders_as_a_sum_of_monomials() {
    let x = poly(&[2, 1]);
    let y = poly(&[4, 3, 2]);
    assert_eq!(x.render(), "1x + 2");
    assert_eq!(x.mul_karatsuba(&y).render(), "2x^3 + 7x^2 + 10x + 8");
}
