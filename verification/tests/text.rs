use paintr::text::{push_decimal, push_signed_decimal};

#[test]
fn decimal_of_small_and_large_numbers() {
    for (n, want) in [
        (0u64, "0"),
        (7, "7"),
        (9, "9"),
        (10, "10"),
        (11, "11"),
        (100, "100"),
        (1234567890, "1234567890"),
        (u64::MAX, "18446744073709551615"),
    ] {
        let mut s = String::new();
        push_decimal(&mut s, n);
        assert_eq!(s, want);
    }
}

#[test]
fn decimal_is_appended() {
    let mut s = String::from("n = ");
    push_decimal(&mut s, 42);
    push_signed_decimal(&mut s, -42);
    assert_eq!(s, "n = 42-42");
}

#[test]
fn signed_decimal_has_a_minus_sign() {
    for (i, want) in [
        (0i64, "0"),
        (-1, "-1"),
        (1, "1"),
        (-10, "-10"),
        (i64::MAX, "9223372036854775807"),
        (i64::MIN, "-9223372036854775808"),
    ] {
        let mut s = String::new();
        push_signed_decimal(&mut s, i);
        assert_eq!(s, want);
    }
}
