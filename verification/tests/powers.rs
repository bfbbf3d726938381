use karatsuba::powers::{base_case_length, is_power_of_two, next_power_of_two};

#[test]
fn powers_of_two_are_recognised() {
    assert!(!is_power_of_two(0));
    assert!(is_power_of_two(1));
    assert!(is_power_of_two(2));
    assert!(!is_power_of_two(3));
    assert!(is_power_of_two(4));
    assert!(!is_power_of_two(6));
    assert!(is_power_of_two(1024));
    assert!(!is_power_of_two(1023));
    assert!(!is_power_of_two(usize::MAX));
}

#[test]
fn is_power_of_two_agrees_with_the_standard_library() {
    for n in 0..5000usize {
        assert_eq!(is_power_of_two(n), n.is_power_of_two());
    }
}

#[test]
fn next_power_of_two_rounds_up() {
    assert_eq!(next_power_of_two(0), 1);
    assert_eq!(next_power_of_two(1), 1);
    assert_eq!(next_power_of_two(2), 2);
    assert_eq!(next_power_of_two(3), 4);
    assert_eq!(next_power_of_two(5), 8);
    assert_eq!(next_power_of_two(8), 8);
    assert_eq!(next_power_of_two(9), 16);
    assert_eq!(next_power_of_two(1000), 1024);
}

#[test]
fn next_power_of_two_agrees_with_the_standard_library() {
    for n in 0..5000usize {
        assert_eq!(next_power_of_two(n), n.next_power_of_two());
    }
}

#[test]
fn recursion_stops_at_the_threshold_when_it_is_a_power_of_two() {
    assert_eq!(base_case_length(1, 8), 1);
    assert_eq!(base_case_length(2, 8), 2);
    assert_eq!(base_case_length(4, 8), 4);
    assert_eq!(base_case_length(8, 8), 8);
}

#[test]
fn recursion_stops_at_once_when_the_threshold_is_longer() {
    assert_eq!(base_case_length(32, 8), 8);
    assert_eq!(base_case_length(9, 8), 8);
}

#[test]
fn recursion_stops_below_a_threshold_that_is_no_power_of_two() {
    assert_eq!(base_case_length(3, 8), 2);
    assert_eq!(base_case_length(7, 16), 4);
    assert_eq!(base_case_length(0, 8), 1);
}
