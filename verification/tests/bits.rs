use fantastic_giggle::bits::{to_signed, to_unsigned};

#[test]
fn numbers_that_fit_are_unchanged() {
    assert_eq!(to_signed(0), 0);
    assert_eq!(to_signed(42), 42);
    assert_eq!(to_signed(i64::MAX as u64), i64::MAX);
    assert_eq!(to_unsigned(0), 0);
    assert_eq!(to_unsigned(42), 42);
    assert_eq!(to_unsigned(i64::MAX), i64::MAX as u64);
}

#[test]
fn numbers_that_do_not_fit_keep_their_bits() {
    assert_eq!(to_signed(i64::MAX as u64 + 1), i64::MIN);
    assert_eq!(to_signed(u64::MAX), -1);
    assert_eq!(to_unsigned(-1), u64::MAX);
    assert_eq!(to_unsigned(i64::MIN), 1u64 << 63);
    assert_eq!(to_unsigned(-2), 18_446_744_073_709_551_614);
}

#[test]
fn reading_back_gives_the_number_again() {
    for n in [0u64, 1, 5000, i64::MAX as u64, i64::MAX as u64 + 1, u64::MAX - 1, u64::MAX] {
        assert_eq!(to_unsigned(to_signed(n)), n);
    }
    for m in [i64::MIN, i64::MIN + 1, -5000, -1, 0, 1, i64::MAX] {
        assert_eq!(to_signed(to_unsigned(m)), m);
    }
}
