use regex::Regex;
use sql_audit_gen::literals::{
    extract_where_values, find_where, literal_length, literal_values, strip_literals,
};

fn chars(s: &str) -> Vec<char> {
    s.chars().collect()
}

#[test]
fn bind_values_of_a_where_clause() {
    assert_eq!(
        extract_where_values("SELECT id FROM users WHERE age > 30 AND name = 'Bob'"),
        "30, 'Bob'"
    );
}

#[test]
fn statement_without_where_has_no_bind_values() {
    assert_eq!(extract_where_values("INSERT INTO t VALUES (1)"), "");
    assert_eq!(extract_where_values(""), "");
    assert_eq!(extract_where_values("WHER"), "");
}

#[test]
fn where_is_found_in_any_case() {
    assert_eq!(extract_where_values("delete from t where id = 7"), "7");
    assert_eq!(extract_where_values("delete from t WhErE id = 7"), "7");
}

#[test]
fn only_text_behind_the_first_where_is_scanned() {
    assert_eq!(extract_where_values("UPDATE t SET a = 5 WHERE b = 6"), "6");
    assert_eq!(extract_where_values("x 1 WHERE 2 WHERE 3"), "2, 3");
    assert_eq!(extract_where_values("WHERE"), "");
    assert_eq!(extract_where_values("nowhere 12"), "12");
}

#[test]
fn bind_values_keep_repeats_and_order() {
    assert_eq!(
        extract_where_values("SELECT * FROM t WHERE a = 1 AND b = 'x' AND c = 1 AND d = 'x'"),
        "1, 'x', 1, 'x'"
    );
}

#[test]
fn text_before_where_may_hold_other_alphabets() {
    assert_eq!(extract_where_values("SELECT 'ßŉé' FROM t WHERE a = 42"), "42");
    assert_eq!(extract_where_values("ŉŉŉŉŉŉ WHERE 'é' 8"), "'é', 8");
}

#[test]
fn numbers_with_sign_and_fraction() {
    assert_eq!(literal_values("a -5 b +17 c 3.25 d -0.5"), "-5, +17, 3.25, -0.5");
}

#[test]
fn point_without_digit_behind_it_is_left_out() {
    assert_eq!(literal_values("1. 2.x .5 7.."), "1, 2, 5, 7");
}

#[test]
fn sign_without_digit_is_no_number() {
    assert_eq!(literal_values("+ - +-5 --6 a-b"), "-5, -6");
}

#[test]
fn second_point_starts_a_new_number() {
    assert_eq!(literal_values("1.2.3"), "1.2, 3");
    assert_eq!(literal_values("10-20"), "10, -20");
}

#[test]
fn quoted_strings_run_to_the_next_quote() {
    assert_eq!(literal_values("'a' 'b c' ''"), "'a', 'b c', ''");
    assert_eq!(literal_values("'it''s'"), "'it', 's'");
    assert_eq!(literal_values("'12' 3"), "'12', 3");
}

#[test]
fn unclosed_quote_starts_no_string() {
    assert_eq!(literal_values("'abc"), "");
    assert_eq!(literal_values("'abc 12"), "12");
    assert_eq!(literal_values("'a' 'b"), "'a'");
}

#[test]
fn only_the_digits_zero_to_nine_make_numbers() {
    assert_eq!(literal_values("٣ ४ ５"), "");
    assert_eq!(strip_literals("٣ 1 ５"), "٣  ５");
}

#[test]
fn digits_inside_words_are_numbers() {
    assert_eq!(literal_values("attribute01 x2y"), "01, 2");
}

#[test]
fn shape_of_a_statement() {
    assert_eq!(
        strip_literals("SELECT id FROM users WHERE age > 10"),
        "SELECT id FROM users WHERE age > "
    );
    assert_eq!(
        strip_literals("name = 'Bob' AND age > 30"),
        "name =  AND age > "
    );
    assert_eq!(strip_literals("'abc"), "'abc");
    assert_eq!(strip_literals("1.2.3"), ".");
    assert_eq!(strip_literals(""), "");
    assert_eq!(strip_literals("12"), "");
    assert_eq!(strip_literals("é1è'x'ü"), "éèü");
}

#[test]
fn literal_length_at_positions() {
    let text = chars("a -12.50 'xy' 7.");
    assert_eq!(literal_length(&text, 0), 0);
    assert_eq!(literal_length(&text, 2), 6);
    assert_eq!(literal_length(&text, 3), 5);
    assert_eq!(literal_length(&text, 4), 4);
    assert_eq!(literal_length(&text, 5), 0);
    assert_eq!(literal_length(&text, 6), 2);
    assert_eq!(literal_length(&text, 9), 4);
    assert_eq!(literal_length(&text, 12), 0);
    assert_eq!(literal_length(&text, 14), 1);
    assert_eq!(literal_length(&text, 15), 0);
}

#[test]
fn first_where_position() {
    assert_eq!(find_where(&chars("a WHERE b where")), Some(2));
    assert_eq!(find_where(&chars("where")), Some(0));
    assert_eq!(find_where(&chars("wher e")), None);
    assert_eq!(find_where(&chars("")), None);
    assert_eq!(find_where(&chars("xxWHERE")), Some(2));
}

fn samples() -> Vec<&'static str> {
    vec![
        "",
        "SELECT id, name FROM users WHERE age > 30 AND name = 'Bob'",
        "UPDATE salaries SET salary = 4500 WHERE commission = 123.45 AND name LIKE 'A%'",
        "event_date BETWEEN '2024-01-02 03:04:05' AND '2024-01-09 03:04:05' ",
        "INSERT INTO t (id, name, age, salary) VALUES (12, 'Jane Smith', 33, 9000)",
        "ALTER TABLE logs ADD COLUMN atttribute03 VARCHAR(255)",
        "+-+-1.2.3.4-5+6 '' ''' 1.e5 0x1F 1,2 .5. -.5 +.5 1.-2",
        "'unclosed 12 and -3.5",
        "a'b'c'd'e'f",
        "12abc34.56.78'9'10",
        "----5++++6....7",
        "where WHERE wHeRe 1 'a' 2",
        "é 1 'ü' 2.5 ß",
    ]
}

#[test]
fn literals_agree_with_the_regular_expression() {
    let pattern = Regex::new(r"[-+]?\d+(\.\d+)?|'[^']*'").unwrap();
    for text in samples() {
        let expected: Vec<&str> = pattern.find_iter(text).map(|m| m.as_str()).collect();
        assert_eq!(literal_values(text), expected.join(", "), "literals of {:?}", text);
    }
}

#[test]
fn shape_agrees_with_the_regular_expression() {
    let pattern = Regex::new(r"[-+]?\d+(\.\d+)?|'[^']*'").unwrap();
    for text in samples() {
        assert_eq!(
            strip_literals(text),
            pattern.replace_all(text, "").to_string(),
            "shape of {:?}",
            text
        );
    }
}
