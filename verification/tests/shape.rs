use sql_audit_gen::conditions::ConditionValues;
use sql_audit_gen::hashing::gen_sql_hash;
use sql_audit_gen::literals::strip_literals;
use sql_audit_gen::statements::{
    delete_statement, insert_statement, select_statement, update_statement,
};

fn low() -> ConditionValues {
    ConditionValues {
        age: 20,
        salary: 3000,
        department: 0,
        commission_cents: 10_000,
        initial: 0,
        updated_by: 0,
        created_by: 0,
        event_from: String::from("2024-01-02 03:04:05"),
        event_to: String::from("2024-01-09 03:04:05"),
    }
}

fn high() -> ConditionValues {
    ConditionValues {
        age: 49,
        salary: 9999,
        department: 2,
        commission_cents: 99_999,
        initial: 2,
        updated_by: 4,
        created_by: 3,
        event_from: String::from("1999-12-25 23:59:59"),
        event_to: String::from("1999-12-31 23:59:59"),
    }
}

#[test]
fn shape_of_each_condition() {
    let shapes = [
        "age > ",
        "salary < ",
        "department = ",
        "commission = ",
        "name LIKE ",
        "last_update_by = ",
        "created_by = ",
        "event_date BETWEEN  AND  ",
    ];
    for (which, shape) in shapes.iter().enumerate() {
        assert_eq!(strip_literals(&low().condition(which)), *shape);
        assert_eq!(strip_literals(&high().condition(which)), *shape);
    }
}

#[test]
fn shape_of_a_clause_is_that_of_its_templates() {
    let picks = vec![7, 0, 3, 7, 4, 2, 6, 5];
    assert_eq!(
        strip_literals(&low().where_clause(&picks)),
        "WHERE event_date BETWEEN  AND   AND age >  AND commission =  AND event_date BETWEEN  \
         AND   AND name LIKE  AND department =  AND created_by =  AND last_update_by = "
    );
    assert_eq!(
        strip_literals(&low().where_clause(&picks)),
        strip_literals(&high().where_clause(&picks))
    );
}

#[test]
fn hash_of_a_statement_ignores_the_values_drawn() {
    for picks in [vec![0], vec![1, 1, 2, 3], vec![7, 6, 5, 4, 3, 2, 1, 0]] {
        let a = low().where_clause(&picks);
        let b = high().where_clause(&picks);
        assert_ne!(a, b);
        assert_eq!(
            gen_sql_hash(&select_statement("id, age", "users", &a)),
            gen_sql_hash(&select_statement("id, age", "users", &b))
        );
        assert_eq!(
            gen_sql_hash(&delete_statement("logs", &a)),
            gen_sql_hash(&delete_statement("logs", &b))
        );
        assert_eq!(
            gen_sql_hash(&update_statement("tasks", 3000, &a)),
            gen_sql_hash(&update_statement("tasks", 9999, &b))
        );
    }
    assert_eq!(
        gen_sql_hash(&insert_statement("orders", 1, 0, 20, 3000)),
        gen_sql_hash(&insert_statement("orders", 99, 4, 49, 9999))
    );
}

#[test]
fn hash_of_a_statement_tells_its_templates() {
    let a = low().where_clause(&vec![0, 1]);
    let b = low().where_clause(&vec![1, 0]);
    assert_ne!(
        gen_sql_hash(&select_statement("id", "users", &a)),
        gen_sql_hash(&select_statement("id", "users", &b))
    );
    assert_ne!(
        gen_sql_hash(&select_statement("id", "users", &a)),
        gen_sql_hash(&select_statement("id", "orders", &a))
    );
    assert_ne!(
        gen_sql_hash(&select_statement("id", "users", &a)),
        gen_sql_hash(&select_statement("id, age", "users", &a))
    );
}

#[test]
fn shape_of_statements_without_their_values() {
    assert_eq!(
        strip_literals(&insert_statement("orders", 12, 1, 33, 9000)),
        "INSERT INTO orders (id, name, age, salary) VALUES (, , , )"
    );
    assert_eq!(
        strip_literals(&update_statement("tasks", 4500, &low().where_clause(&vec![0]))),
        "UPDATE tasks SET salary =  WHERE age > "
    );
}
