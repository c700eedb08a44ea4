use sql_audit_gen::clock::timestamp_text;
use sql_audit_gen::conditions::{
    generate_where_clause, sample_condition_values, sample_picks, ConditionValues,
};
use sql_audit_gen::literals::extract_where_values;
use sql_audit_gen::random::RandomSource;
use sql_audit_gen::statements::{
    alter_statement, delete_statement, generate_select_cols, generate_sql_stmt, insert_statement,
    select_list, select_statement, update_statement,
};
use sql_audit_gen::vocabulary::{column_name, COLUMN_COUNT};

const NOW: i64 = 1_700_000_000;

fn values() -> ConditionValues {
    ConditionValues {
        age: 30,
        salary: 4500,
        department: 1,
        commission_cents: 12_305,
        initial: 2,
        updated_by: 0,
        created_by: 4,
        event_from: String::from("2024-01-02 03:04:05"),
        event_to: String::from("2024-01-09 03:04:05"),
    }
}

#[test]
fn each_condition_filled_with_values() {
    let v = values();
    assert_eq!(v.condition(0), "age > 30");
    assert_eq!(v.condition(1), "salary < 4500");
    assert_eq!(v.condition(2), "department = 'Engineering'");
    assert_eq!(v.condition(3), "commission = 123.05");
    assert_eq!(v.condition(4), "name LIKE 'C%'");
    assert_eq!(v.condition(5), "last_update_by = 'John Doe'");
    assert_eq!(v.condition(6), "created_by = 'Charlie Davis'");
    assert_eq!(
        v.condition(7),
        "event_date BETWEEN '2024-01-02 03:04:05' AND '2024-01-09 03:04:05' "
    );
}

#[test]
fn commission_is_written_with_two_decimals() {
    let mut v = values();
    v.commission_cents = 10_000;
    assert_eq!(v.condition(3), "commission = 100.00");
    v.commission_cents = 99_999;
    assert_eq!(v.condition(3), "commission = 999.99");
    v.commission_cents = 45_670;
    assert_eq!(v.condition(3), "commission = 456.70");
}

#[test]
fn clause_joins_the_picked_conditions() {
    let v = values();
    assert_eq!(
        v.where_clause(&vec![0, 2, 0, 7, 1]),
        "WHERE age > 30 AND department = 'Engineering' AND age > 30 AND event_date BETWEEN \
         '2024-01-02 03:04:05' AND '2024-01-09 03:04:05'  AND salary < 4500"
    );
    assert_eq!(v.where_clause(&vec![3]), "WHERE commission = 123.05");
    assert_eq!(v.where_clause(&vec![]), "WHERE ");
}

#[test]
fn bind_values_of_a_clause_are_its_literals() {
    let v = values();
    let clause = v.where_clause(&vec![0, 3, 4, 7]);
    assert_eq!(
        extract_where_values(&clause),
        "30, 123.05, 'C%', '2024-01-02 03:04:05', '2024-01-09 03:04:05'"
    );
}

#[test]
fn drawn_values_lie_in_their_ranges() {
    let mut rng = RandomSource::new();
    for _ in 0..500 {
        let v = sample_condition_values(&mut rng, NOW).unwrap();
        assert!(20 <= v.age && v.age < 50);
        assert!(3000 <= v.salary && v.salary < 10_000);
        assert!(10_000 <= v.commission_cents && v.commission_cents < 100_000);
        assert!(v.department < 3 && v.initial < 3 && v.updated_by < 5 && v.created_by < 5);
        assert_eq!(v.event_from.len(), 19);
        assert_eq!(v.event_to.len(), 19);
        assert!(v.event_from <= v.event_to);
        let picks = sample_picks(&mut rng);
        assert!(4 <= picks.len() && picks.len() <= 8);
        assert!(picks.iter().all(|p| *p < 8));
    }
}

#[test]
fn generated_clause_begins_with_where() {
    let mut rng = RandomSource::new();
    for _ in 0..200 {
        let clause = generate_where_clause(&mut rng, NOW).unwrap();
        assert!(clause.starts_with("WHERE "));
        assert!(clause.matches(" AND ").count() >= 3);
        assert!(!clause.contains('\t') && !clause.contains('\n'));
        assert!(!extract_where_values(&clause).is_empty());
    }
}

#[test]
fn column_list_joins_the_picked_columns() {
    assert_eq!(select_list(&vec![0]), "id");
    assert_eq!(select_list(&vec![0, 1, 13, 0]), "id, produc_name, updated_by, id");
    assert_eq!(select_list(&vec![]), "");
}

#[test]
fn column_list_of_a_select_is_never_empty() {
    let mut rng = RandomSource::new();
    let pool: Vec<&str> = (0..COLUMN_COUNT).map(column_name).collect();
    for _ in 0..500 {
        let cols = generate_select_cols("SELECT", &mut rng);
        assert!(!cols.is_empty());
        let parts: Vec<&str> = cols.split(", ").collect();
        assert!(1 <= parts.len() && parts.len() < COLUMN_COUNT);
        assert!(parts.iter().all(|p| pool.contains(p)));
    }
}

#[test]
fn column_list_of_other_kinds_is_the_sentinel() {
    let mut rng = RandomSource::new();
    for kind in ["INSERT", "UPDATE", "DELETE", "ALTER", "select", "", "MERGE"] {
        assert_eq!(generate_select_cols(kind, &mut rng), "N/A");
    }
}

#[test]
fn statements_around_given_values() {
    assert_eq!(
        select_statement("id, name", "users", "WHERE age > 30"),
        "SELECT id, name FROM users WHERE age > 30"
    );
    assert_eq!(
        insert_statement("orders", 12, 1, 33, 9000),
        "INSERT INTO orders (id, name, age, salary) VALUES (12, 'Jane Smith', 33, 9000)"
    );
    assert_eq!(
        update_statement("salaries", 4500, "WHERE age > 30"),
        "UPDATE salaries SET salary = 4500 WHERE age > 30"
    );
    assert_eq!(delete_statement("logs", "WHERE age > 30"), "DELETE FROM logs WHERE age > 30");
    assert_eq!(
        alter_statement("tasks", 2, 0),
        "ALTER TABLE tasks ADD COLUMN atttribute03 VARCHAR(255)"
    );
    assert_eq!(alter_statement("tasks", 0, 2), "ALTER TABLE tasks ADD COLUMN attribute01 DATE");
}

#[test]
fn generated_statements_have_the_form_of_their_kind() {
    let mut rng = RandomSource::new();
    for _ in 0..100 {
        let select = generate_sql_stmt("SELECT", "users", "id, age", &mut rng, NOW).unwrap();
        assert!(select.starts_with("SELECT id, age FROM users WHERE "));
        let insert = generate_sql_stmt("INSERT", "users", "N/A", &mut rng, NOW).unwrap();
        assert!(insert.starts_with("INSERT INTO users (id, name, age, salary) VALUES ("));
        assert!(insert.ends_with(")"));
        assert_eq!(extract_where_values(&insert), "");
        let update = generate_sql_stmt("UPDATE", "users", "N/A", &mut rng, NOW).unwrap();
        assert!(update.starts_with("UPDATE users SET salary = "));
        assert!(update.contains(" WHERE "));
        let delete = generate_sql_stmt("DELETE", "users", "N/A", &mut rng, NOW).unwrap();
        assert!(delete.starts_with("DELETE FROM users WHERE "));
        let alter = generate_sql_stmt("ALTER", "users", "N/A", &mut rng, NOW).unwrap();
        assert!(alter.starts_with("ALTER TABLE users ADD COLUMN "));
    }
}

#[test]
fn text_that_spells_no_kind_gives_the_empty_statement() {
    let mut rng = RandomSource::new();
    assert_eq!(generate_sql_stmt("MERGE", "users", "id", &mut rng, NOW), Some(String::new()));
    assert_eq!(generate_sql_stmt("select", "users", "id", &mut rng, NOW), Some(String::new()));
    assert_eq!(generate_sql_stmt("", "users", "id", &mut rng, NOW), Some(String::new()));
}

#[test]
fn instant_beyond_the_calendar_gives_no_clause() {
    let mut rng = RandomSource::new();
    let far = i64::MAX - 360;
    assert!(sample_condition_values(&mut rng, far).is_none());
    assert!(generate_where_clause(&mut rng, far).is_none());
    assert!(generate_sql_stmt("SELECT", "users", "id", &mut rng, far).is_none());
    assert!(generate_sql_stmt("UPDATE", "users", "N/A", &mut rng, far).is_none());
    assert!(generate_sql_stmt("DELETE", "users", "N/A", &mut rng, far).is_none());
    assert!(generate_sql_stmt("INSERT", "users", "N/A", &mut rng, far).is_some());
    assert!(generate_sql_stmt("ALTER", "users", "N/A", &mut rng, far).is_some());
}

#[test]
fn date_range_ends_now_and_starts_up_to_six_days_earlier() {
    let mut rng = RandomSource::new();
    let starts: Vec<String> =
        (0..7).map(|days| timestamp_text(NOW - days * 86_400).unwrap()).collect();
    let mut seen = [false; 7];
    for _ in 0..500 {
        let v = sample_condition_values(&mut rng, NOW).unwrap();
        assert_eq!(v.event_to, starts[0]);
        let days = starts.iter().position(|start| *start == v.event_from).unwrap();
        seen[days] = true;
        assert_eq!(
            v.condition(7),
            format!("event_date BETWEEN '{}' AND '{}' ", starts[days], starts[0])
        );
    }
    assert!(seen.iter().all(|s| *s));
}

#[test]
fn statement_around_names_without_breaks_holds_no_break() {
    let mut rng = RandomSource::new();
    for kind in ["SELECT", "INSERT", "UPDATE", "DELETE", "ALTER", "MERGE"] {
        for _ in 0..50 {
            let text = generate_sql_stmt(kind, "tablé 'x'", "cöl, 1", &mut rng, NOW).unwrap();
            assert!(!text.contains('\t') && !text.contains('\n'));
        }
    }
}
