use rust_decimal::Decimal;
use tx_engine::{format_fixed, to_fixed, Account, SCALE};

#[test]
fn format_zero() {
    assert_eq!(format_fixed(0), "0.0000");
}

#[test]
fn format_whole_and_fraction() {
    assert_eq!(format_fixed(10 * SCALE), "10.0000");
    assert_eq!(format_fixed(12346), "1.2346");
    assert_eq!(format_fixed(5), "0.0005");
    assert_eq!(format_fixed(15_5000), "15.5000");
}

#[test]
fn format_negative() {
    assert_eq!(format_fixed(-15000), "-1.5000");
    assert_eq!(format_fixed(-1), "-0.0001");
}

#[test]
fn format_extremes() {
    // The most negative value has no positive counterpart; its magnitude
    // is still rendered exactly.
    assert_eq!(format_fixed(i64::MIN), "-922337203685477.5808");
    assert_eq!(format_fixed(i64::MAX), "922337203685477.5807");
}

#[test]
fn to_fixed_scales_by_ten_thousand() {
    assert_eq!(to_fixed(Decimal::new(100, 1)), 10 * SCALE);
    assert_eq!(to_fixed(Decimal::new(1, 4)), 1);
    assert_eq!(to_fixed(Decimal::new(-55, 1)), -55_000);
}

#[test]
fn to_fixed_truncates_extra_digits() {
    // 1.23456 has five fractional digits; the fifth is dropped, not rounded.
    assert_eq!(to_fixed(Decimal::new(123456, 5)), 12345);
    assert_eq!(to_fixed(Decimal::new(-123456, 5)), -12345);
    // 0.99999 truncates down to 0.9999.
    assert_eq!(to_fixed(Decimal::new(99999, 5)), 9999);
}

#[test]
fn to_fixed_clamps_out_of_range_to_zero() {
    // The scaled value no longer fits: the defensive clamp maps it to zero.
    assert_eq!(to_fixed(Decimal::MAX), 0);
    assert_eq!(to_fixed(Decimal::MIN), 0);
}

#[test]
fn account_total_saturates() {
    let a = Account { available: i64::MAX, held: 5, locked: false };
    assert_eq!(a.total(), i64::MAX);
    let b = Account { available: i64::MIN, held: -1, locked: false };
    assert_eq!(b.total(), i64::MIN);
    let c = Account { available: 70_000, held: 30_000, locked: false };
    assert_eq!(c.total(), 100_000);
}
