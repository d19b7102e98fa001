use cheese_shop::text::{decimal, signed_decimal, split_at_char};

#[test]
fn split_keeps_empty_pieces() {
    assert_eq!(split_at_char("", ' '), vec![""]);
    assert_eq!(split_at_char(" a  b ", ' '), vec!["", "a", "", "b", ""]);
    assert_eq!(split_at_char("spam", ' '), vec!["spam"]);
    assert_eq!(split_at_char("égg,bäcon", ','), vec!["égg", "bäcon"]);
}

#[test]
fn decimal_numerals() {
    assert_eq!(decimal(0), "0");
    assert_eq!(decimal(1975), "1975");
    assert_eq!(signed_decimal(i32::MIN), "-2147483648");
    assert_eq!(signed_decimal(7), "7");
}
