use lelo::util::round_up_to_multiple;

#[test]
fn round_up_keeps_multiples() {
    assert_eq!(round_up_to_multiple(0, 604_800), 0);
    assert_eq!(round_up_to_multiple(604_800, 604_800), 604_800);
    assert_eq!(round_up_to_multiple(1_209_600, 604_800), 1_209_600);
}

#[test]
fn round_up_moves_to_next_multiple() {
    assert_eq!(round_up_to_multiple(1, 604_800), 604_800);
    assert_eq!(round_up_to_multiple(604_801, 604_800), 1_209_600);
    assert_eq!(round_up_to_multiple(7, 5), 10);
}

#[test]
fn round_up_negative_moves_towards_zero() {
    assert_eq!(round_up_to_multiple(-7, 5), -5);
    assert_eq!(round_up_to_multiple(-10, 5), -10);
    assert_eq!(round_up_to_multiple(-1, 5), 0);
}

#[test]
fn round_up_zero_multiple_is_identity() {
    assert_eq!(round_up_to_multiple(42, 0), 42);
    assert_eq!(round_up_to_multiple(-42, 0), -42);
}

#[test]
fn round_up_negative_multiple() {
    assert_eq!(round_up_to_multiple(7, -5), 0);
    assert_eq!(round_up_to_multiple(10, -5), 10);
}

#[test]
fn numbers_are_written_in_decimal() {
    assert_eq!(lelo::text::format_decimal(0), "0");
    assert_eq!(lelo::text::format_decimal(7), "7");
    assert_eq!(lelo::text::format_decimal(10), "10");
    assert_eq!(lelo::text::format_decimal(120), "120");
    assert_eq!(lelo::text::format_decimal(1_000_000), "1000000");
    assert_eq!(lelo::text::format_decimal(9_876_543_210), "9876543210");
    assert_eq!(lelo::text::format_decimal(u64::MAX), "18446744073709551615");
}

#[test]
fn round_up_is_the_least_multiple_not_below() {
    for n in -30i64..30 {
        for m in 1i64..8 {
            let r = round_up_to_multiple(n, m);
            assert_eq!(r % m, 0);
            assert!(n <= r && r < n + m);
        }
    }
}
