use sql_audit_gen::text::{
    chars_of, decimal_string, digit_str, join_strings, push_decimal, push_two_digits, same_text,
};

#[test]
fn decimal_numerals() {
    assert_eq!(decimal_string(0), "0");
    assert_eq!(decimal_string(7), "7");
    assert_eq!(decimal_string(10), "10");
    assert_eq!(decimal_string(3000), "3000");
    assert_eq!(decimal_string(u64::MAX), "18446744073709551615");
}

#[test]
fn numerals_are_appended() {
    let mut out = String::from("n=");
    push_decimal(&mut out, 405);
    push_two_digits(&mut out, 7);
    push_two_digits(&mut out, 0);
    push_two_digits(&mut out, 99);
    assert_eq!(out, "n=405070099");
    assert_eq!(digit_str(0), "0");
    assert_eq!(digit_str(9), "9");
}

#[test]
fn joining_strings() {
    let none: Vec<String> = vec![];
    assert_eq!(join_strings(&none, ", "), "");
    assert_eq!(join_strings(&vec![String::from("a")], ", "), "a");
    assert_eq!(
        join_strings(&vec![String::from("a"), String::new(), String::from("c")], ", "),
        "a, , c"
    );
    assert_eq!(join_strings(&vec![String::from("a"), String::from("b")], ""), "ab");
}

#[test]
fn comparing_text() {
    assert!(same_text("SELECT", "SELECT"));
    assert!(same_text("", ""));
    assert!(!same_text("SELECT", "select"));
    assert!(!same_text("SELECT", "SELECT "));
    assert!(!same_text("é", "e"));
    assert_eq!(chars_of("aé1"), vec!['a', 'é', '1']);
}
