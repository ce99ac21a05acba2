use levelbot::num::{money, Ths};

#[test]
fn test_money() {
    assert_eq!(money(1000), "$10.00");
    assert_eq!(money(100), "$1.00");
    assert_eq!(money(100000), "$1,000.00");
    assert_eq!(money(1000000), "$10,000.00");
    assert_eq!(money(10000000), "$100,000.00");
    assert_eq!(money(100000000), "$1,000,000.00");
    assert_eq!(money(1000000000), "$10,000,000.00");
}

#[test]
fn test_ths() {
    assert_eq!(1000.ths(), "1,000");
    assert_eq!(100.ths(), "100");
    assert_eq!(100000.ths(), "100,000");
    assert_eq!(1000000.ths(), "1,000,000");
    assert_eq!(10000000.ths(), "10,000,000");
    assert_eq!(100000000.ths(), "100,000,000");
    assert_eq!(1000000000.ths(), "1,000,000,000");
    assert_eq!((-1000).ths(), "-1,000");
    assert_eq!((-100).ths(), "-100");
    assert_eq!((-100000).ths(), "-100,000");
    assert_eq!((-1000000).ths(), "-1,000,000");
    assert_eq!((-10000000).ths(), "-10,000,000");
    assert_eq!((-100000000).ths(), "-100,000,000");
    assert_eq!((-1000000000).ths(), "-1,000,000,000");
}

#[test]
fn money_cents_are_zero_padded() {
    assert_eq!(money(0), "$0.00");
    assert_eq!(money(5), "$0.05");
    assert_eq!(money(42), "$0.42");
    assert_eq!(money(123), "$1.23");
    assert_eq!(money(999), "$9.99");
    assert_eq!(money(123456789), "$1,234,567.89");
}

#[test]
fn ths_covers_every_integer_width() {
    assert_eq!(1234567i64.ths(), "1,234,567");
    assert_eq!(1234567i32.ths(), "1,234,567");
    assert_eq!(12345i16.ths(), "12,345");
    assert_eq!(123i8.ths(), "123");
    assert_eq!((-123i8).ths(), "-123");
    assert_eq!(1234567u64.ths(), "1,234,567");
    assert_eq!(1234567u32.ths(), "1,234,567");
    assert_eq!(12345u16.ths(), "12,345");
    assert_eq!(123u8.ths(), "123");
    assert_eq!(1234567usize.ths(), "1,234,567");
    assert_eq!((-1234567isize).ths(), "-1,234,567");
    assert_eq!(i64::MAX.ths(), "9,223,372,036,854,775,807");
}
