use sql_audit_gen::vocabulary::{
    added_column_name, added_column_type, app_name, client_host_name, column_name, db_user_name,
    department_name, name_initial, person_name, status_name, table_name, StatementKind,
    COLUMN_COUNT, DB_USER_COUNT, TABLE_COUNT,
};

#[test]
fn kinds_by_roll() {
    assert_eq!(StatementKind::from_roll(0), StatementKind::Insert);
    assert_eq!(StatementKind::from_roll(15), StatementKind::Insert);
    assert_eq!(StatementKind::from_roll(16), StatementKind::Update);
    assert_eq!(StatementKind::from_roll(25), StatementKind::Update);
    assert_eq!(StatementKind::from_roll(26), StatementKind::Delete);
    assert_eq!(StatementKind::from_roll(30), StatementKind::Delete);
    assert_eq!(StatementKind::from_roll(31), StatementKind::Alter);
    assert_eq!(StatementKind::from_roll(33), StatementKind::Alter);
    assert_eq!(StatementKind::from_roll(34), StatementKind::Select);
    assert_eq!(StatementKind::from_roll(99), StatementKind::Select);
}

#[test]
fn kinds_by_name() {
    for kind in [
        StatementKind::Select,
        StatementKind::Insert,
        StatementKind::Update,
        StatementKind::Delete,
        StatementKind::Alter,
    ] {
        assert_eq!(StatementKind::from_name(kind.name()), Some(kind));
    }
    assert_eq!(StatementKind::Select.name(), "SELECT");
    assert_eq!(StatementKind::Alter.name(), "ALTER");
    assert_eq!(StatementKind::from_name("select"), None);
    assert_eq!(StatementKind::from_name("SELECT "), None);
    assert_eq!(StatementKind::from_name(""), None);
}

#[test]
fn applications_by_roll() {
    assert_eq!(app_name(0), "ERP");
    assert_eq!(app_name(50), "ERP");
    assert_eq!(app_name(51), "WEB App");
    assert_eq!(app_name(80), "WEB App");
    assert_eq!(app_name(81), "SQL Developer");
    assert_eq!(app_name(85), "SQL Developer");
    assert_eq!(app_name(86), "Toad");
    assert_eq!(app_name(90), "Toad");
    assert_eq!(app_name(91), "PL/SQL Developer");
    assert_eq!(app_name(95), "PL/SQL Developer");
    assert_eq!(app_name(96), "SQL*Plus");
    assert_eq!(app_name(99), "SQL*Plus");
}

#[test]
fn entries_of_the_lists() {
    assert_eq!(table_name(0), "users");
    assert_eq!(table_name(TABLE_COUNT - 1), "logs");
    assert_eq!(column_name(1), "produc_name");
    assert_eq!(column_name(COLUMN_COUNT - 1), "updated_by");
    assert_eq!(person_name(2), "Alice Johnson");
    assert_eq!(department_name(2), "Sales");
    assert_eq!(name_initial(0), "A");
    assert_eq!(added_column_name(1), "attribute02");
    assert_eq!(added_column_type(1), "INT");
    assert_eq!(client_host_name(4), "ERP_USER_HOST105");
    assert_eq!(db_user_name(8), "APEX_040000");
    assert_eq!(db_user_name(DB_USER_COUNT - 1), "ANONYMOUS");
    assert_eq!(status_name(0), "SUCCESS");
    assert_eq!(status_name(1), "FAILURE");
}
