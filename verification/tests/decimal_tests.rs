use gdd::decimal::{append_decimal, digit_str};

fn decimal_of(n: usize) -> String {
    let mut out = String::new();
    append_decimal(&mut out, n);
    out
}

#[test]
fn digits_are_written_one_by_one() {
    for d in 0..10 {
        assert_eq!(digit_str(d), d.to_string());
    }
}

#[test]
fn numbers_are_written_without_leading_zeros() {
    assert_eq!(decimal_of(0), "0");
    assert_eq!(decimal_of(7), "7");
    assert_eq!(decimal_of(10), "10");
    assert_eq!(decimal_of(99), "99");
    assert_eq!(decimal_of(100), "100");
    assert_eq!(decimal_of(12345), "12345");
    assert_eq!(decimal_of(1002003), "1002003");
}

#[test]
fn the_largest_number_is_written_in_full() {
    assert_eq!(decimal_of(usize::MAX), usize::MAX.to_string());
}

#[test]
fn decimal_is_put_behind_what_is_there() {
    let mut out = String::from("  add $");
    append_decimal(&mut out, 42);
    assert_eq!(out, "  add $42");
}
