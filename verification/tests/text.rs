use server_info::text::{decimal_text, push_decimal, push_signed_decimal};

#[test]
fn decimal_text_of_small_and_large_numbers() {
    assert_eq!(decimal_text(0), "0");
    assert_eq!(decimal_text(7), "7");
    assert_eq!(decimal_text(10), "10");
    assert_eq!(decimal_text(1234567890), "1234567890");
    assert_eq!(decimal_text(u64::MAX), "18446744073709551615");
}

#[test]
fn decimal_text_agrees_with_the_standard_rendering() {
    let mut n: u64 = 1;
    for _ in 0..64 {
        assert_eq!(decimal_text(n), n.to_string());
        assert_eq!(decimal_text(n - 1), (n - 1).to_string());
        n = n.wrapping_mul(2);
    }
}

#[test]
fn push_decimal_adds_to_the_end() {
    let mut text = String::from("n = ");
    push_decimal(&mut text, 405);
    assert_eq!(text, "n = 405");
}

#[test]
fn push_signed_decimal_writes_the_sign() {
    let mut text = String::new();
    push_signed_decimal(&mut text, -42);
    text.push(' ');
    push_signed_decimal(&mut text, 42);
    text.push(' ');
    push_signed_decimal(&mut text, 0);
    text.push(' ');
    push_signed_decimal(&mut text, i64::MIN);
    text.push(' ');
    push_signed_decimal(&mut text, i64::MAX);
    assert_eq!(text, "-42 42 0 -9223372036854775808 9223372036854775807");
}
