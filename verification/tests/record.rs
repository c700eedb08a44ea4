use sql_audit_gen::record::{tsv_header, SyntheticSqlRecord, FIELD_COUNT};
use sql_audit_gen::vocabulary::StatementKind;

fn record() -> SyntheticSqlRecord {
    SyntheticSqlRecord {
        conn_hash: String::from("conn_47be65ade7d4e620b6d7735da76c04fd"),
        stmt_id: 12,
        exec_id: 3,
        exec_time: String::from("2024-03-05 07:08:09"),
        sql_type: StatementKind::Select,
        exe_status: String::from("SUCCESS"),
        db_ip: String::from("192.168.1.1"),
        client_ip: String::from("10.0.0.1"),
        client_host: String::from("ERP_USER_HOST101"),
        app_name: String::from("ERP"),
        db_user: String::from("SCOTT"),
        sql_hash: String::from("sql_ad2d7120afe41c5e"),
        from_tbs: String::from("users"),
        select_cols: String::from("id"),
        sql_stmt: String::from("SELECT id FROM users WHERE age > 10"),
        stmt_bind_vars: String::from("10"),
    }
}

#[test]
fn header_names_the_fields_in_order() {
    assert_eq!(
        tsv_header(),
        "conn_hash\tstmt_id\texec_id\texec_time\tsql_type\texe_status\tdb_ip\tclient_ip\t\
         client_host\tapp_name\tdb_user\tsql_hash\tfrom_tbs\tselect_cols\tsql_stmt\tstmt_bind_vars"
    );
    assert_eq!(tsv_header().split('\t').count(), FIELD_COUNT);
}

#[test]
fn line_holds_the_fields_in_order() {
    assert_eq!(
        record().to_tsv_line(),
        "conn_47be65ade7d4e620b6d7735da76c04fd\t12\t3\t2024-03-05 07:08:09\tSELECT\tSUCCESS\t\
         192.168.1.1\t10.0.0.1\tERP_USER_HOST101\tERP\tSCOTT\tsql_ad2d7120afe41c5e\tusers\tid\t\
         SELECT id FROM users WHERE age > 10\t10"
    );
    assert_eq!(record().to_tsv_line().split('\t').count(), 16);
}

#[test]
fn empty_fields_keep_their_place() {
    let mut r = record();
    r.sql_type = StatementKind::Alter;
    r.select_cols = String::from("N/A");
    r.sql_stmt = String::from("ALTER TABLE users ADD COLUMN attribute01 INT");
    r.stmt_bind_vars = String::new();
    let line = r.to_tsv_line();
    assert!(line.ends_with("\tN/A\tALTER TABLE users ADD COLUMN attribute01 INT\t"));
    assert_eq!(line.split('\t').count(), 16);
}

#[test]
fn nothing_is_escaped() {
    let mut r = record();
    r.sql_stmt = String::from("a\tb");
    assert_eq!(r.to_tsv_line().split('\t').count(), 17);
}
