use gecko_client::text::{contains_text, push_decimal, text_is};

fn decimal(n: u64) -> String {
    let mut out = String::new();
    push_decimal(&mut out, n);
    out
}

#[test]
fn push_decimal_writes_single_digits() {
    assert_eq!(decimal(0), "0");
    assert_eq!(decimal(7), "7");
    assert_eq!(decimal(9), "9");
}

#[test]
fn push_decimal_writes_without_leading_zeros() {
    assert_eq!(decimal(10), "10");
    assert_eq!(decimal(6000), "6000");
    assert_eq!(decimal(1234567890), "1234567890");
    assert_eq!(decimal(u64::MAX), "18446744073709551615");
}

#[test]
fn push_decimal_agrees_with_std_formatting() {
    let mut n: u64 = 1;
    for _ in 0..19 {
        assert_eq!(decimal(n), n.to_string());
        assert_eq!(decimal(n - 1), (n - 1).to_string());
        n *= 10;
    }
}

#[test]
fn push_decimal_appends_to_what_is_there() {
    let mut out = String::from("LEN = ");
    push_decimal(&mut out, 73);
    assert_eq!(out, "LEN = 73");
}

#[test]
fn text_is_compares_whole_texts() {
    assert!(text_is(&"u8".to_string(), "u8"));
    assert!(!text_is(&"u8".to_string(), "u80"));
    assert!(!text_is(&"u8".to_string(), "u"));
    assert!(text_is(&String::new(), ""));
}

#[test]
fn contains_text_finds_exact_members() {
    let list = vec!["mut".to_string(), "init".to_string()];
    assert!(contains_text(&list, &"mut".to_string()));
    assert!(contains_text(&list, &"init".to_string()));
    assert!(!contains_text(&list, &"signer".to_string()));
    assert!(!contains_text(&list, &"mu".to_string()));
    assert!(!contains_text(&Vec::new(), &"mut".to_string()));
}
