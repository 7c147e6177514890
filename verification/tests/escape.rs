use mandelbrot::escape_count;
use mandelbrot::fixed::LIM;
use mandelbrot::fixed::SCALE;
use mandelbrot::Fixed;

#[test]
fn origin_never_escapes() {
    let zero = Fixed::from_int(0);
    assert_eq!(escape_count(zero, zero, 0), 0);
    assert_eq!(escape_count(zero, zero, 1), 1);
    assert_eq!(escape_count(zero, zero, 7), 7);
    assert_eq!(escape_count(zero, zero, 3000), 3000);
}

#[test]
fn zero_budget_counts_zero() {
    // a zero iteration budget yields 0 everywhere, outside points included
    assert_eq!(escape_count(Fixed::from_int(5), Fixed::from_int(5), 0), 0);
    assert_eq!(escape_count(Fixed::from_int(0), Fixed::from_int(0), 0), 0);
    assert_eq!(escape_count(Fixed::from_int(-3), Fixed::from_int(1), 0), 0);
}

#[test]
fn far_point_escapes_at_round_one() {
    // the first magnitude test sees z = 0, so a point far outside the
    // escape radius is counted at the round after the first step
    assert_eq!(escape_count(Fixed::from_int(5), Fixed::from_int(5), 10), 1);
    assert_eq!(escape_count(Fixed::from_int(-10), Fixed::from_int(0), 10), 1);
}

#[test]
fn monotonic_in_budget() {
    // c = 1 + 1i escapes after two steps; counts over growing budgets
    // never decrease
    let one = Fixed::from_int(1);
    let expected: [usize; 8] = [0, 1, 2, 2, 2, 2, 2, 2];
    let mut last: usize = 0;
    for budget in 0..8usize {
        let count = escape_count(one, one, budget);
        assert_eq!(count, expected[budget]);
        assert!(count >= last);
        last = count;
    }
}

#[test]
fn magnitude_exactly_two_does_not_escape() {
    // c = -2 keeps z on the real cycle -2, 2, 2, ... whose magnitude is
    // exactly 2; the strict comparison never fires
    assert_eq!(escape_count(Fixed::from_int(-2), Fixed::from_int(0), 50), 50);
}

#[test]
fn fixed_point_constructors() {
    assert_eq!(SCALE, 4294967296);
    assert_eq!(Fixed::from_int(1).raw, 4294967296);
    assert_eq!(Fixed::from_int(-2).raw, -8589934592);
    assert_eq!(Fixed::from_raw(123).raw, 123);
    // out-of-range values saturate at the representable bound
    assert_eq!(Fixed::from_int(2_000_000_000).raw, LIM);
    assert_eq!(Fixed::from_int(-2_000_000_000).raw, -LIM);
}
