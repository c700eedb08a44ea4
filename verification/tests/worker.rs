use sql_audit_gen::clock::timestamp_text;
use sql_audit_gen::hashing::{gen_conn_hash, gen_sql_hash};
use sql_audit_gen::literals::extract_where_values;
use sql_audit_gen::plan::partition_quota;
use sql_audit_gen::random::RandomSource;
use sql_audit_gen::record::tsv_header;
use sql_audit_gen::session::StepDraws;
use sql_audit_gen::vocabulary::StatementKind;
use sql_audit_gen::worker::{client_address, db_address, GenerationWorker, RowDraws};

const NOW: i64 = 1_700_000_000;

const FIRST_IDENTITY: &str = "conn_3bc17df9f8a6366a318d5a7c5e19172f";

fn first() -> RowDraws {
    RowDraws {
        db_net: 9,
        db_node: 8,
        client_net: 7,
        client_node: 6,
        client_host: 0,
        app_roll: 0,
        db_user: 0,
        kind_roll: 0,
        status: 0,
        table: 0,
    }
}

fn is_identity(text: &str) -> bool {
    text.len() == 37
        && text.starts_with("conn_")
        && text[5..].chars().all(|c| c.is_ascii_digit() || ('a'..='f').contains(&c))
}

fn row() -> RowDraws {
    RowDraws {
        db_net: 1,
        db_node: 254,
        client_net: 0,
        client_node: 17,
        client_host: 2,
        app_roll: 60,
        db_user: 3,
        kind_roll: 40,
        status: 1,
        table: 4,
    }
}

#[test]
fn addresses_from_their_parts() {
    assert_eq!(db_address(0, 0), "192.168.0.0");
    assert_eq!(db_address(17, 254), "192.168.17.254");
    assert_eq!(client_address(0, 0), "10.0.0.0");
    assert_eq!(client_address(254, 9), "10.0.254.9");
}

#[test]
fn new_worker_has_given_nothing() {
    let w = GenerationWorker::begin(5, &first(), NOW, 4);
    assert_eq!(w.quota, 5);
    assert_eq!(w.session.connection_identity, FIRST_IDENTITY);
    assert_eq!(w.session.connection_identity, gen_conn_hash("192.168.9.8", "10.0.7.6", "ERP"));
    assert_eq!(w.session.connection_identity, first().identity());
    assert!(is_identity(&w.session.connection_identity));
    assert_eq!(w.session.rows_emitted, 0);
    assert_eq!(w.session.simulated_clock, NOW - 4 * 86_400);
    assert!(!w.is_done());
    assert!(GenerationWorker::begin(0, &first(), NOW, 4).is_done());
}

#[test]
fn started_worker_begins_days_before_now() {
    let mut rng = RandomSource::new();
    for _ in 0..200 {
        let w = GenerationWorker::start_at(9, &mut rng, NOW);
        assert!(is_identity(&w.session.connection_identity));
        assert!(NOW - 7 * 86_400 <= w.session.simulated_clock);
        assert!(w.session.simulated_clock <= NOW - 3 * 86_400);
        assert_eq!((w.session.statement_sequence, w.session.execution_sequence), (1, 1));
    }
    assert!(GenerationWorker::start(3, &mut rng).is_some());
}

#[test]
fn row_is_put_together_from_draws_and_texts() {
    let mut w = GenerationWorker::begin(5, &first(), NOW, 4);
    let step = StepDraws { statement_cap: 30, days_back: 2, increment: 100 };
    let record = w.produce_with(
        &row(),
        &step,
        NOW,
        String::from("2023-11-10 00:00:00"),
        String::from("id, age"),
        String::from("SELECT id, age FROM employees WHERE age > 30 AND name LIKE 'A%'"),
    );
    assert_eq!(record.conn_hash, FIRST_IDENTITY);
    assert_eq!((record.stmt_id, record.exec_id), (1, 2));
    assert_eq!(record.exec_time, "2023-11-10 00:00:00");
    assert_eq!(record.sql_type, StatementKind::Select);
    assert_eq!(record.exe_status, "FAILURE");
    assert_eq!(record.db_ip, "192.168.1.254");
    assert_eq!(record.client_ip, "10.0.0.17");
    assert_eq!(record.client_host, "ERP_USER_HOST103");
    assert_eq!(record.app_name, "WEB App");
    assert_eq!(record.db_user, "SCOTT");
    assert_eq!(
        record.sql_hash,
        gen_sql_hash("SELECT id, age FROM employees WHERE age >  AND name LIKE ")
    );
    assert_eq!(record.from_tbs, "employees");
    assert_eq!(record.select_cols, "id, age");
    assert_eq!(
        record.sql_stmt,
        "SELECT id, age FROM employees WHERE age > 30 AND name LIKE 'A%'"
    );
    assert_eq!(record.stmt_bind_vars, "30, 'A%'");
    assert_eq!(w.session.rows_emitted, 1);
    assert_eq!(w.session.simulated_clock, NOW - 4 * 86_400 + 100);
    assert_eq!(w.quota, 5);
}

#[test]
fn retired_connection_takes_its_identity_from_the_row() {
    let mut w = GenerationWorker::begin(5, &first(), NOW, 0);
    let step = StepDraws { statement_cap: 30, days_back: 2, increment: 100 };
    let record = w.produce_with(
        &row(),
        &step,
        NOW,
        String::from("2023-11-12 00:00:00"),
        String::from("N/A"),
        String::from("DELETE FROM employees WHERE age > 30"),
    );
    assert_eq!(record.conn_hash, gen_conn_hash("192.168.1.254", "10.0.0.17", "WEB App"));
    assert_eq!(record.conn_hash, w.session.connection_identity);
    assert_eq!((record.stmt_id, record.exec_id), (1, 1));
    assert_eq!(w.session.simulated_clock, NOW - 2 * 86_400 + 100);
}

#[test]
fn drawn_rows_lie_in_their_ranges() {
    let mut rng = RandomSource::new();
    let mut tables = [false; 10];
    let mut outcomes = [false; 2];
    for _ in 0..1000 {
        let r = RowDraws::sample(&mut rng);
        assert!(r.db_net < 255 && r.db_node < 255 && r.client_net < 255 && r.client_node < 255);
        assert!(r.client_host < 5 && r.app_roll < 100 && r.db_user < 10);
        assert!(r.kind_roll < 100 && r.status < 2 && r.table < 10);
        tables[r.table] = true;
        outcomes[r.status] = true;
    }
    assert!(tables.iter().all(|seen| *seen));
    assert!(outcomes.iter().all(|seen| *seen));
}

#[test]
fn workers_begin_under_different_identities() {
    let mut rng = RandomSource::new();
    let a = GenerationWorker::start_at(1, &mut rng, NOW).session.connection_identity;
    let b = GenerationWorker::start_at(1, &mut rng, NOW).session.connection_identity;
    let c = GenerationWorker::start_at(1, &mut rng, NOW).session.connection_identity;
    assert!(a != b || b != c);
}

#[test]
fn worker_gives_rows_until_the_quota_is_met() {
    let mut rng = RandomSource::new();
    let mut w = GenerationWorker::start_at(300, &mut rng, NOW);
    let mut rows = 0;
    let mut last: Option<(String, usize, usize, String)> = None;
    while !w.is_done() {
        let record = w.produce_at(&mut rng, NOW).unwrap();
        rows += 1;
        assert_eq!(w.session.rows_emitted, rows);
        assert_eq!(record.conn_hash, w.session.connection_identity);
        assert_eq!(record.stmt_id, w.session.statement_sequence);
        assert_eq!(record.exec_id, w.session.execution_sequence);
        assert_eq!(record.sql_hash, gen_sql_hash(&record.sql_stmt));
        assert_eq!(record.stmt_bind_vars, extract_where_values(&record.sql_stmt));
        assert_eq!(record.exec_time.len(), 19);
        if record.sql_type == StatementKind::Select {
            assert!(!record.select_cols.is_empty());
            assert_ne!(record.select_cols, "N/A");
        } else {
            assert_eq!(record.select_cols, "N/A");
        }
        assert!(record.sql_stmt.starts_with(record.sql_type.name()));
        assert!(record.sql_stmt.contains(record.from_tbs.as_str()));
        let line = record.to_tsv_line();
        assert_eq!(line.split('\t').count(), 16);
        assert!(!line.contains('\n'));
        if let Some((identity, stmt, exec, time)) = &last {
            if *identity == record.conn_hash && !(record.stmt_id == 1 && record.exec_id == 1) {
                assert!(*time < record.exec_time);
                assert_eq!(record.exec_id == 1, record.stmt_id == stmt + 1);
                if record.exec_id != 1 {
                    assert_eq!((record.stmt_id, record.exec_id), (*stmt, exec + 1));
                }
            }
        }
        last = Some((record.conn_hash, record.stmt_id, record.exec_id, record.exec_time));
    }
    assert_eq!(rows, 300);
    assert!(w.produce(&mut rng).is_none());
    assert_eq!(w.session.rows_emitted, 300);
}

#[test]
fn worker_reads_the_wall_clock() {
    let mut rng = RandomSource::new();
    let mut w = GenerationWorker::start(3, &mut rng).unwrap();
    let mut rows = 0;
    while let Some(record) = w.produce(&mut rng) {
        rows += 1;
        assert_eq!(record.to_tsv_line().split('\t').count(), 16);
    }
    assert_eq!(rows, 3);
    assert!(w.is_done());
}

#[test]
fn thousand_rows_across_twenty_workers() {
    let mut rng = RandomSource::new();
    let quota = partition_quota(1000, 20);
    let mut lines: Vec<String> = vec![tsv_header()];
    for _ in 0..20 {
        let mut w = GenerationWorker::start_at(quota, &mut rng, NOW);
        while !w.is_done() {
            lines.push(w.produce_at(&mut rng, NOW).unwrap().to_tsv_line());
        }
    }
    let rows = lines.len() - 1;
    assert!(980 <= rows && rows <= 1000);
    assert_eq!(rows, 1000);
    assert_eq!(lines.iter().filter(|l| l.starts_with("conn_hash\t")).count(), 1);
    assert!(lines.iter().all(|l| l.split('\t').count() == 16));
}

#[test]
fn remainder_of_the_division_is_dropped() {
    let mut rng = RandomSource::new();
    let quota = partition_quota(1000, 30);
    let mut rows = 0;
    for _ in 0..30 {
        let mut w = GenerationWorker::start_at(quota, &mut rng, NOW);
        while !w.is_done() {
            w.produce_at(&mut rng, NOW).unwrap();
            rows += 1;
        }
    }
    assert_eq!(rows, 990);
}

#[test]
fn instant_beyond_the_calendar_gives_no_row() {
    let mut rng = RandomSource::new();
    let far = i64::MAX - 360;
    let mut w = GenerationWorker::begin(4, &first(), far, 3);
    for _ in 0..50 {
        assert!(w.produce_at(&mut rng, far).is_none());
        assert_eq!(w.session.rows_emitted, 0);
        assert_eq!(w.session.connection_identity, FIRST_IDENTITY);
        assert_eq!((w.session.statement_sequence, w.session.execution_sequence), (1, 1));
        assert_eq!(w.session.simulated_clock, far - 3 * 86_400);
        assert_eq!(w.quota, 4);
    }
}

#[test]
fn well_formed_workers() {
    let mut w = GenerationWorker::begin(4, &first(), NOW, 3);
    assert!(w.is_well_formed());
    w.session.connection_identity = String::from("a\tb");
    assert!(!w.is_well_formed());
    w.session.connection_identity = String::from("conn_x");
    assert!(!w.is_well_formed());
    w.session.connection_identity = String::from("conn_0123456789ABCDEF0123456789abcdef");
    assert!(!w.is_well_formed());
    w.session.connection_identity = String::from("sqln_0123456789abcdef0123456789abcde");
    assert!(!w.is_well_formed());
    w.session.connection_identity = String::from("conn_0123456789abcdef0123456789abcdef");
    assert!(w.is_well_formed());
    w.session.execution_sequence = 4;
    assert!(!w.is_well_formed());
    w.session.execution_sequence = 3;
    w.session.statement_sequence = 3001;
    assert!(!w.is_well_formed());
    w.session.statement_sequence = 3000;
    assert!(w.is_well_formed());
    w.session.rows_emitted = 5;
    assert!(!w.is_well_formed());
}

#[test]
fn rows_are_given_at_the_ends_of_the_calendar() {
    let mut rng = RandomSource::new();
    for now in [7 * 86_400, 253_402_300_799 - 360] {
        let mut w = GenerationWorker::start_at(200, &mut rng, now);
        while !w.is_done() {
            assert!(w.produce_at(&mut rng, now).is_some());
            assert!(w.session.simulated_clock >= 0);
        }
    }
}

#[test]
fn worker_starts_only_at_a_usable_instant() {
    let mut rng = RandomSource::new();
    assert!(GenerationWorker::start_from(5, &mut rng, i64::MAX).is_none());
    assert!(GenerationWorker::start_from(5, &mut rng, i64::MAX - 359).is_none());
    assert!(GenerationWorker::start_from(5, &mut rng, i64::MIN).is_none());
    assert!(GenerationWorker::start_from(5, &mut rng, i64::MIN + 604_799).is_none());
    for now in [i64::MIN + 604_800, -1, 0, NOW, i64::MAX - 360] {
        let w = GenerationWorker::start_from(5, &mut rng, now).unwrap();
        assert_eq!(w.quota, 5);
        assert_eq!(w.session.rows_emitted, 0);
        assert_eq!((w.session.statement_sequence, w.session.execution_sequence), (1, 1));
        assert!(now - 7 * 86_400 <= w.session.simulated_clock);
        assert!(w.session.simulated_clock <= now - 3 * 86_400);
        assert!(w.session.connection_identity.starts_with("conn_"));
    }
}

#[test]
fn row_comes_only_before_the_quota_and_at_a_usable_instant() {
    let mut rng = RandomSource::new();
    let mut w = GenerationWorker::begin(2, &first(), NOW, 3);
    assert!(w.produce_from(&mut rng, i64::MAX).is_none());
    assert!(w.produce_from(&mut rng, i64::MIN).is_none());
    assert_eq!(w.session.rows_emitted, 0);
    assert_eq!(w.session.connection_identity, FIRST_IDENTITY);
    assert_eq!(w.session.simulated_clock, NOW - 3 * 86_400);
    let first = w.produce_from(&mut rng, NOW).unwrap();
    assert_eq!((first.stmt_id, first.exec_id), (1, 2));
    assert_eq!(first.conn_hash, FIRST_IDENTITY);
    assert_eq!(w.session.rows_emitted, 1);
    let second = w.produce_from(&mut rng, NOW).unwrap();
    assert_eq!((second.stmt_id, second.exec_id), (1, 3));
    assert_eq!(w.session.rows_emitted, 2);
    assert!(w.is_done());
    let clock = w.session.simulated_clock;
    assert!(w.produce_from(&mut rng, NOW).is_none());
    assert_eq!(w.session.rows_emitted, 2);
    assert_eq!(w.session.simulated_clock, clock);
}

#[test]
fn rows_are_written_at_the_clock_of_the_session() {
    let mut rng = RandomSource::new();
    let mut w = GenerationWorker::start_at(500, &mut rng, NOW);
    while !w.is_done() {
        let record = w.produce_at(&mut rng, NOW).unwrap();
        assert_eq!(Some(record.exec_time), timestamp_text(w.session.simulated_clock));
        assert!(is_identity(&record.conn_hash));
        assert_eq!(record.sql_hash.len(), 20);
    }
}

#[test]
fn first_identity_is_that_of_a_connection() {
    let mut rng = RandomSource::new();
    for _ in 0..50 {
        let mut w = GenerationWorker::start_at(1, &mut rng, NOW);
        assert!(is_identity(&w.session.connection_identity));
        assert!(w.is_well_formed());
        let identity = w.session.connection_identity.clone();
        let record = w.produce_at(&mut rng, NOW).unwrap();
        assert_eq!(record.conn_hash, identity);
        assert_eq!((record.stmt_id, record.exec_id), (1, 2));
    }
    assert_eq!(first().identity(), FIRST_IDENTITY);
    assert_eq!(row().identity(), "conn_59ddee4c5110fd638a22c814359106c5");
}
