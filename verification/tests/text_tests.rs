use division_quiz::text::{parse_u32, push_decimal, push_repeated};

#[test]
fn parse_agrees_with_std() {
    let cases = [
        "", "0", "7", "12", "007", "+7", "+", "-1", "-0", "1a", " 1", "1 ", "٣", "4294967295",
        "4294967296", "99999999999", "+4294967295", "++1", "0x10",
    ];
    for s in cases {
        assert_eq!(parse_u32(s), s.parse::<u32>().ok(), "case {:?}", s);
    }
}

#[test]
fn parse_examples() {
    assert_eq!(parse_u32("42"), Some(42));
    assert_eq!(parse_u32("+42"), Some(42));
    assert_eq!(parse_u32(""), None);
    assert_eq!(parse_u32("4294967296"), None);
}

#[test]
fn decimal_writes_numbers() {
    let mut s = String::from("n=");
    push_decimal(&mut s, 0);
    assert_eq!(s, "n=0");
    let mut t = String::new();
    push_decimal(&mut t, 18446744073709551615);
    assert_eq!(t, "18446744073709551615");
    let mut u = String::new();
    push_decimal(&mut u, 1000);
    assert_eq!(u, "1000");
}

#[test]
fn repeated_chars() {
    let mut s = String::from("a");
    push_repeated(&mut s, '▁', 3);
    assert_eq!(s, "a▁▁▁");
    push_repeated(&mut s, 'x', 0);
    assert_eq!(s, "a▁▁▁");
}
