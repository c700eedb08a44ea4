use sha2::{Digest, Sha256};
use sql_audit_gen::hashing::{gen_conn_hash, gen_sql_hash, has_identity_form, tagged_digest};

#[test]
fn connection_identity_of_a_triple() {
    assert_eq!(
        gen_conn_hash("192.168.1.1", "10.0.0.1", "ERP"),
        "conn_47be65ade7d4e620b6d7735da76c04fd"
    );
}

#[test]
fn connection_identity_of_empty_strings() {
    assert_eq!(gen_conn_hash("", "", ""), "conn_e3b0c44298fc1c149afbf4c8996fb924");
}

#[test]
fn connection_identity_is_a_function_of_the_triple() {
    let first = gen_conn_hash("192.168.7.9", "10.0.3.4", "WEB App");
    let second = gen_conn_hash("192.168.7.9", "10.0.3.4", "WEB App");
    assert_eq!(first, second);
    assert_eq!(first.len(), 37);
    assert_ne!(first, gen_conn_hash("192.168.7.9", "10.0.3.4", "Toad"));
    assert_ne!(first, gen_conn_hash("192.168.7.8", "10.0.3.4", "WEB App"));
    assert_ne!(first, gen_conn_hash("192.168.7.9", "10.0.3.5", "WEB App"));
}

#[test]
fn connection_identity_reads_the_three_strings_as_one() {
    assert_eq!(gen_conn_hash("ab", "c", "d"), gen_conn_hash("a", "bc", "d"));
    assert_eq!(gen_conn_hash("ab", "c", "d"), gen_conn_hash("", "", "abcd"));
}

#[test]
fn connection_identity_agrees_with_the_digest() {
    let mut hasher = Sha256::new();
    hasher.update("192.168.200.13".as_bytes());
    hasher.update("10.0.99.1".as_bytes());
    hasher.update("PL/SQL Developer".as_bytes());
    let digest = hex::encode(hasher.finalize());
    assert_eq!(
        gen_conn_hash("192.168.200.13", "10.0.99.1", "PL/SQL Developer"),
        format!("conn_{}", &digest[..32])
    );
}

#[test]
fn statement_hash_ignores_literals() {
    let first = gen_sql_hash("SELECT id FROM users WHERE age > 10");
    let second = gen_sql_hash("SELECT id FROM users WHERE age > 99");
    assert_eq!(first, "sql_ad2d7120afe41c5e");
    assert_eq!(first, second);
    assert_eq!(
        gen_sql_hash("SELECT id FROM users WHERE name = 'Bob' AND age > 10"),
        gen_sql_hash("SELECT id FROM users WHERE name = 'Alice Johnson' AND age > -7.5")
    );
}

#[test]
fn statement_hash_differs_with_table_and_columns() {
    let base = gen_sql_hash("SELECT id FROM users WHERE age > 10");
    assert_eq!(gen_sql_hash("SELECT id FROM orders WHERE age > 10"), "sql_34aa7530a11fbf22");
    assert_eq!(gen_sql_hash("SELECT name FROM users WHERE age > 10"), "sql_d3ece2fc95e0266e");
    assert_ne!(base, gen_sql_hash("SELECT id FROM orders WHERE age > 10"));
    assert_ne!(base, gen_sql_hash("SELECT name FROM users WHERE age > 10"));
}

#[test]
fn statement_hash_of_nothing_but_literals() {
    assert_eq!(gen_sql_hash(""), "sql_e3b0c44298fc1c14");
    assert_eq!(gen_sql_hash("12"), "sql_e3b0c44298fc1c14");
    assert_eq!(gen_sql_hash("'a'-5"), "sql_e3b0c44298fc1c14");
}

#[test]
fn tagged_digest_writes_small_hexadecimal() {
    let digest = [0x00u8, 0x0f, 0xf0, 0xab, 0xCD, 0x19];
    assert_eq!(tagged_digest("t_", &digest, 12), "t_000ff0abcd19");
    assert_eq!(tagged_digest("t_", &digest, 5), "t_000ff");
    assert_eq!(tagged_digest("", &digest, 0), "");
    assert_eq!(tagged_digest("only", &[], 0), "only");
}

fn is_hex(text: &str) -> bool {
    text.chars().all(|c| c.is_ascii_digit() || ('a'..='f').contains(&c))
}

#[test]
fn identifiers_are_a_tag_and_hexadecimal_digits() {
    for (a, b, c) in [("", "", ""), ("192.168.0.1", "10.0.0.2", "Toad"), ("é", "ü", "ß")] {
        let identity = gen_conn_hash(a, b, c);
        assert_eq!(identity.len(), 37);
        assert!(identity.starts_with("conn_"));
        assert!(is_hex(&identity[5..]));
        assert!(has_identity_form(&identity));
    }
    for sql in ["", "SELECT 1", "DELETE FROM logs WHERE age > 30", "é 'ü'"] {
        let hash = gen_sql_hash(sql);
        assert_eq!(hash.len(), 20);
        assert!(hash.starts_with("sql_"));
        assert!(is_hex(&hash[4..]));
    }
}

#[test]
fn form_of_a_connection_identity() {
    assert!(has_identity_form("conn_0123456789abcdef0123456789abcdef"));
    assert!(has_identity_form("conn_ffffffffffffffffffffffffffffffff"));
    assert!(!has_identity_form(""));
    assert!(!has_identity_form("conn_"));
    assert!(!has_identity_form("conn_77"));
    assert!(!has_identity_form("conn_0123456789abcdef0123456789abcde"));
    assert!(!has_identity_form("conn_0123456789abcdef0123456789abcdef0"));
    assert!(!has_identity_form("conn_0123456789abcdef0123456789abcdeg"));
    assert!(!has_identity_form("conn_0123456789ABCDEF0123456789abcdef"));
    assert!(!has_identity_form("Conn_0123456789abcdef0123456789abcdef"));
    assert!(!has_identity_form("conn-0123456789abcdef0123456789abcdef"));
    assert!(!has_identity_form("sql__0123456789abcdef0123456789abcdef"));
    assert!(!has_identity_form("conn_0123456789abcdef0123456789abcdeé"));
}
