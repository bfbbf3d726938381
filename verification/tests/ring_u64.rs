use karatsuba::ring::Ring;

#[test]
fn identities_of_u64() {
    assert_eq!(<u64 as Ring>::zero(), 0);
    assert_eq!(<u64 as Ring>::one(), 1);
}

#[test]
fn is_zero_of_u64() {
    assert!(Ring::is_zero(&0u64));
    assert!(!Ring::is_zero(&1u64));
    assert!(!Ring::is_zero(&u64::MAX));
}

#[test]
fn eq_of_u64() {
    assert!(Ring::eq(&5u64, &5u64));
    assert!(!Ring::eq(&5u64, &6u64));
}

#[test]
fn add_of_u64_wraps() {
    assert_eq!(Ring::add(2u64, 3u64), 5);
    assert_eq!(Ring::add(u64::MAX, 1u64), 0);
    assert_eq!(Ring::add(u64::MAX, u64::MAX), u64::MAX - 1);
}

#[test]
fn sub_of_u64_wraps() {
    assert_eq!(Ring::sub(5u64, 3u64), 2);
    assert_eq!(Ring::sub(0u64, 1u64), u64::MAX);
    assert_eq!(Ring::sub(3u64, 5u64), u64::MAX - 1);
}

#[test]
fn mul_of_u64_wraps() {
    assert_eq!(Ring::mul(6u64, 7u64), 42);
    assert_eq!(Ring::mul(1u64 << 32, 1u64 << 32), 0);
    assert_eq!(Ring::mul(u64::MAX, u64::MAX), 1);
    assert_eq!(Ring::mul(u64::MAX, 2u64), u64::MAX - 1);
}

#[test]
fn text_of_u64() {
    assert_eq!(Ring::to_text(&0u64), "0");
    assert_eq!(Ring::to_text(&907u64), "907");
}

#[test]
fn ring_axioms_on_samples() {
    let samples: [u64; 6] = [0, 1, 2, 1 << 63, u64::MAX, 0x1234_5678_9abc_def0];
    for &a in samples.iter() {
        assert_eq!(Ring::add(a, <u64 as Ring>::zero()), a);
        assert_eq!(Ring::mul(a, <u64 as Ring>::one()), a);
        for &b in samples.iter() {
            assert_eq!(Ring::add(a, b), Ring::add(b, a));
            assert_eq!(Ring::mul(a, b), Ring::mul(b, a));
            assert_eq!(Ring::add(Ring::sub(a, b), b), a);
            for &c in samples.iter() {
                assert_eq!(Ring::add(Ring::add(a, b), c), Ring::add(a, Ring::add(b, c)));
                assert_eq!(Ring::mul(Ring::mul(a, b), c), Ring::mul(a, Ring::mul(b, c)));
                assert_eq!(
                    Ring::mul(a, Ring::add(b, c)),
                    Ring::add(Ring::mul(a, b), Ring::mul(a, c))
                );
            }
        }
    }
}
