use karatsuba::decimal::decimal_string;
use karatsuba::render::{render, render_term};

#[test]
fn renders_highest_degree_first() {
    let p: Vec<u64> = vec![8, 10, 7, 2];
    assert_eq!(render(&p), "2x^3 + 7x^2 + 10x + 8");
}

#[test]
fn render_leaves_out_zero_coefficients() {
    let p: Vec<u64> = vec![0, 1, 0, 3, 0];
    assert_eq!(render(&p), "3x^3 + 1x");
}

#[test]
fn render_of_a_constant() {
    let p: Vec<u64> = vec![42];
    assert_eq!(render(&p), "42");
}

#[test]
fn render_of_the_zero_polynomial_is_empty() {
    let p: Vec<u64> = vec![0, 0];
    assert_eq!(render(&p), "");
}

#[test]
fn render_writes_exponents_in_decimal() {
    let mut p: Vec<u64> = vec![0; 13];
    p[12] = 5;
    p[10] = 1;
    p[0] = 3;
    assert_eq!(render(&p), "5x^12 + 1x^10 + 3");
}

#[test]
fn render_term_by_degree() {
    assert_eq!(render_term(7u64, 0), "7");
    assert_eq!(render_term(7u64, 1), "7x");
    assert_eq!(render_term(7u64, 2), "7x^2");
    assert_eq!(render_term(0u64, 100), "0x^100");
}

#[test]
fn decimal_of_small_and_large_numbers() {
    assert_eq!(decimal_string(0), "0");
    assert_eq!(decimal_string(9), "9");
    assert_eq!(decimal_string(10), "10");
    assert_eq!(decimal_string(12345), "12345");
    assert_eq!(decimal_string(1000000), "1000000");
    assert_eq!(decimal_string(u64::MAX), "18446744073709551615");
}

#[test]
fn decimal_agrees_with_the_standard_formatter() {
    for v in [0u64, 1, 19, 100, 101, 999, 65536, 4294967296, u64::MAX - 1] {
        assert_eq!(decimal_string(v), format!("{:?}", v));
    }
}
