//! The worker of one simulated connection: it owns a session and a quota,
//! and gives one row at a time until the quota is met.

use crate::clock::{
    in_calendar, is_timestamp_of, is_timestamp_text, is_usable_now, lemma_timestamp_of_is_text,
    lemma_timestamp_text_plain, timestamp_text, usable_now,
    utc_now_seconds, CALENDAR_END, CALENDAR_START, MAX_DAYS_BACK, MAX_STEP_SECONDS,
    SECONDS_PER_DAY,
};
use crate::hashing::{
    connection_identity_text, gen_conn_hash, gen_sql_hash, has_identity_form,
    is_connection_identity, is_hash_form, is_identity_form, lemma_forms_plain,
    statement_hash_text,
};
use crate::literals::{bind_values_text, extract_where_values, lemma_bind_values_plain};
use crate::random::RandomSource;
use crate::record::{field_count, SyntheticSqlRecord, FIELD_COUNT};
use crate::session::{ConnectionSession, SessionModel, StepDraws};
use crate::statements::{
    generate_select_cols, generate_sql_stmt, is_select_list, is_statement, lemma_select_list_plain,
    lemma_statement_plain, no_columns_text,
};
use crate::text::{
    decimal, is_plain, lacks, lemma_concat_plain, lemma_decimal_plain, push_decimal,
};
use crate::vocabulary::{
    app_name, app_name_text, client_host_name, client_host_name_text, db_user_name,
    db_user_name_text, lemma_app_name_plain, lemma_client_host_name_plain,
    lemma_db_user_name_plain, lemma_status_name_plain, lemma_table_name_plain, status_name,
    status_name_text, table_name, table_name_text, StatementKind, CLIENT_HOST_COUNT,
    DB_USER_COUNT, STATUS_COUNT, TABLE_COUNT,
};
use vstd::prelude::*;
use vstd::string::*;

verus! {

/// One more than the greatest value drawn for a part of an address.
pub const ADDRESS_PART_BOUND: u64 = 255;

/// The fewest days before the wall clock at which a worker's first
/// connection begins.
pub const MIN_START_DAYS_BACK: i64 = 3;

/// What is drawn for the fields of one row that do not depend on the
/// session.
#[derive(Clone, Copy, Debug, PartialEq, Eq, Structural)]
pub struct RowDraws {
    /// Third part of the database address.
    pub db_net: u64,
    /// Fourth part of the database address.
    pub db_node: u64,
    /// Third part of the client address.
    pub client_net: u64,
    /// Fourth part of the client address.
    pub client_node: u64,
    /// Which client host.
    pub client_host: usize,
    /// Roll for the client application.
    pub app_roll: u64,
    /// Which database user.
    pub db_user: usize,
    /// Roll for the kind of statement.
    pub kind_roll: u64,
    /// Which outcome.
    pub status: usize,
    /// Which table.
    pub table: usize,
}

/// The database address with the parts `net` and `node`.
pub open spec fn db_ip_text(net: nat, node: nat) -> Seq<char> {
    "192.168."@ + decimal(net) + "."@ + decimal(node)
}

/// The client address with the parts `net` and `node`.
pub open spec fn client_ip_text(net: nat, node: nat) -> Seq<char> {
    "10.0."@ + decimal(net) + "."@ + decimal(node)
}

/// The database address with the parts `net` and `node`.
pub fn db_address(net: u64, node: u64) -> (r: String)
    ensures
        r@ == db_ip_text(net as nat, node as nat),
{
    let mut out = String::new();
    out.append("192.168.");
    push_decimal(&mut out, net);
    out.append(".");
    push_decimal(&mut out, node);
    assert(out@ =~= db_ip_text(net as nat, node as nat));
    out
}

/// The client address with the parts `net` and `node`.
pub fn client_address(net: u64, node: u64) -> (r: String)
    ensures
        r@ == client_ip_text(net as nat, node as nat),
{
    let mut out = String::new();
    out.append("10.0.");
    push_decimal(&mut out, net);
    out.append(".");
    push_decimal(&mut out, node);
    assert(out@ =~= client_ip_text(net as nat, node as nat));
    out
}

/// Addresses are plain.
pub proof fn lemma_addresses_plain(net: nat, node: nat)
    ensures
        is_plain(db_ip_text(net, node)),
        is_plain(client_ip_text(net, node)),
{
    assert(is_plain("192.168."@) && is_plain("10.0."@) && is_plain("."@)) by {
        reveal(is_plain);
        reveal_strlit("192.168.");
        reveal_strlit("10.0.");
        reveal_strlit(".");
    }
    lemma_decimal_plain(net);
    lemma_decimal_plain(node);
    lemma_concat_plain("192.168."@, decimal(net));
    lemma_concat_plain("192.168."@ + decimal(net), "."@);
    lemma_concat_plain("192.168."@ + decimal(net) + "."@, decimal(node));
    lemma_concat_plain("10.0."@, decimal(net));
    lemma_concat_plain("10.0."@ + decimal(net), "."@);
    lemma_concat_plain("10.0."@ + decimal(net) + "."@, decimal(node));
}

impl RowDraws {
    /// Each draw lies in its range: the parts of an address from 0 to 254,
    /// the rolls from 0 to 99, and each index within its list.
    pub open spec fn sampled(self) -> bool {
        &&& self.db_net < ADDRESS_PART_BOUND
        &&& self.db_node < ADDRESS_PART_BOUND
        &&& self.client_net < ADDRESS_PART_BOUND
        &&& self.client_node < ADDRESS_PART_BOUND
        &&& self.client_host < CLIENT_HOST_COUNT
        &&& self.app_roll < 100
        &&& self.db_user < DB_USER_COUNT
        &&& self.kind_roll < 100
        &&& self.status < STATUS_COUNT
        &&& self.table < TABLE_COUNT
    }

    /// The identity that a connection retired on this row gets.
    pub open spec fn identity_text(self) -> Seq<char> {
        connection_identity_text(
            db_ip_text(self.db_net as nat, self.db_node as nat),
            client_ip_text(self.client_net as nat, self.client_node as nat),
            app_name_text(self.app_roll as int),
        )
    }

    /// The identity that a connection retired on this row gets, and that a
    /// worker's first connection gets from the row drawn for it.
    pub fn identity(&self) -> (r: String)
        requires
            self.sampled(),
        ensures
            r@ == self.identity_text(),
            is_identity_form(r@),
    {
        let db_ip = db_address(self.db_net, self.db_node);
        let client_ip = client_address(self.client_net, self.client_node);
        gen_conn_hash(db_ip.as_str(), client_ip.as_str(), app_name(self.app_roll))
    }

    /// Draws the fields of one row.
    pub fn sample(rng: &mut RandomSource) -> (row: RowDraws)
        ensures
            row.sampled(),
    {
        let db_net = rng.draw(0, ADDRESS_PART_BOUND);
        let db_node = rng.draw(0, ADDRESS_PART_BOUND);
        let client_net = rng.draw(0, ADDRESS_PART_BOUND);
        let client_node = rng.draw(0, ADDRESS_PART_BOUND);
        let client_host = rng.draw_index(CLIENT_HOST_COUNT);
        let app_roll = rng.draw(0, 100);
        let db_user = rng.draw_index(DB_USER_COUNT);
        let kind_roll = rng.draw(0, 100);
        let status = rng.draw_index(STATUS_COUNT);
        let table = rng.draw_index(TABLE_COUNT);
        RowDraws {
            db_net,
            db_node,
            client_net,
            client_node,
            client_host,
            app_roll,
            db_user,
            kind_roll,
            status,
            table,
        }
    }
}

impl SyntheticSqlRecord {
    /// The fields that do not depend on the session are those that `row`
    /// selects.
    pub open spec fn carries(self, row: RowDraws) -> bool {
        &&& self.sql_type == StatementKind::for_roll(row.kind_roll as int)
        &&& self.exe_status@ == status_name_text(row.status as int)
        &&& self.db_ip@ == db_ip_text(row.db_net as nat, row.db_node as nat)
        &&& self.client_ip@ == client_ip_text(row.client_net as nat, row.client_node as nat)
        &&& self.client_host@ == client_host_name_text(row.client_host as int)
        &&& self.app_name@ == app_name_text(row.app_roll as int)
        &&& self.db_user@ == db_user_name_text(row.db_user as int)
        &&& self.from_tbs@ == table_name_text(row.table as int)
    }

    /// The record tells of the session `session`.
    pub open spec fn tells_of(self, session: SessionModel) -> bool {
        &&& self.conn_hash@ == session.identity
        &&& self.stmt_id == session.statement
        &&& self.exec_id == session.execution
    }

    /// The record is written at the clock of `session`: its time of
    /// execution is the time that the clock of the machine's time zone
    /// shows at the instant where the session's clock stands.
    pub open spec fn is_timed_by(self, session: SessionModel) -> bool {
        is_timestamp_of(self.exec_time@, session.clock)
    }

    /// The statement and what is derived from it agree: a `SELECT` lists
    /// columns and any other kind the text that stands in their place, the
    /// statement is one of its kind on its table as it can be generated at
    /// the instant `now`, the hash is that of the statement and has the form
    /// of a hash, the bind values are those of the statement, and the time
    /// of execution is a written calendar time.
    pub open spec fn is_consistent(self, now: int) -> bool {
        &&& self.sql_type == StatementKind::Select ==> is_select_list(self.select_cols@)
            && self.select_cols@.len() > 0
        &&& self.sql_type != StatementKind::Select ==> self.select_cols@ == no_columns_text()
        &&& is_statement(self.sql_stmt@, self.sql_type, self.from_tbs@, self.select_cols@, now)
        &&& self.sql_hash@ == statement_hash_text(self.sql_stmt@)
        &&& is_hash_form(self.sql_hash@)
        &&& self.stmt_bind_vars@ == bind_values_text(self.sql_stmt@)
        &&& is_timestamp_text(self.exec_time@)
    }
}

/// A record that carries draws in their ranges, tells of a session whose
/// identity has the form of an identity, and is consistent is plain.
pub proof fn lemma_record_plain(
    record: SyntheticSqlRecord,
    row: RowDraws,
    session: SessionModel,
    now: int,
)
    requires
        row.sampled(),
        record.carries(row),
        record.tells_of(session),
        record.is_consistent(now),
        is_identity_form(session.identity),
    ensures
        record.is_plain(),
{
    lemma_forms_plain(session.identity);
    lemma_forms_plain(record.sql_hash@);
    lemma_status_name_plain(row.status as int);
    lemma_addresses_plain(row.db_net as nat, row.db_node as nat);
    lemma_addresses_plain(row.client_net as nat, row.client_node as nat);
    lemma_client_host_name_plain(row.client_host as int);
    lemma_app_name_plain(row.app_roll as int);
    lemma_db_user_name_plain(row.db_user as int);
    lemma_table_name_plain(row.table as int);
    lemma_timestamp_text_plain(record.exec_time@);
    lemma_select_list_plain(record.select_cols@);
    lemma_statement_plain(
        record.sql_stmt@,
        record.sql_type,
        record.from_tbs@,
        record.select_cols@,
        now,
    );
    lemma_bind_values_plain(record.sql_stmt@);
}

/// The worker of one simulated connection.
#[derive(Debug)]
pub struct GenerationWorker {
    /// The connection as it stands.
    pub session: ConnectionSession,
    /// How many rows the worker is to give.
    pub quota: usize,
}

impl GenerationWorker {
    /// The session's counters lie in their ranges, its identity has the
    /// form of an identity, and no more rows were given than the quota asks
    /// for.
    pub open spec fn wf(&self) -> bool {
        &&& self.session.wf()
        &&& is_identity_form(self.session@.identity)
        &&& self.session.rows_emitted <= self.quota
    }

    /// True when the identity of the connection is that of some database
    /// address, client address and application.
    pub open spec fn has_derived_identity(&self) -> bool {
        is_connection_identity(self.session@.identity)
    }

    /// How many rows the worker has yet to give.
    pub open spec fn rows_left(&self) -> int {
        self.quota - self.session.rows_emitted
    }

    /// Whether the worker is as `wf` asks.
    pub fn is_well_formed(&self) -> (ok: bool)
        ensures
            ok == self.wf(),
    {
        self.session.is_well_formed() && has_identity_form(
            self.session.connection_identity.as_str(),
        ) && self.session.rows_emitted <= self.quota
    }

    /// True when a row at the instant `now` is sure to be given: the
    /// calendar is sure to hold the ends of the date range of a clause
    /// around `now`, any instant to which a step at `now` can take the
    /// clock of a retired connection, and any to which it can take the
    /// clock as it stands.
    pub open spec fn ready_at(&self, now: i64) -> bool {
        &&& CALENDAR_START + MAX_DAYS_BACK * SECONDS_PER_DAY <= now <= CALENDAR_END
            - MAX_STEP_SECONDS
        &&& CALENDAR_START <= self.session.simulated_clock
    }

    /// True when the quota is met.
    pub open spec fn done(&self) -> bool {
        self.session.rows_emitted >= self.quota
    }

    /// True when `record` and the worker `after` are what this worker gives
    /// and becomes by one row at the instant `now`, for draws `row` and
    /// `step`: the session has taken the step and counts one more row, the
    /// quota stands, and the record tells of the session after the step and
    /// carries the draws of the row.
    pub open spec fn gives(
        &self,
        after: &GenerationWorker,
        record: SyntheticSqlRecord,
        row: RowDraws,
        step: StepDraws,
        now: int,
    ) -> bool {
        let stepped = self.session@.step(step, now, row.identity_text());
        &&& after.session@ == (SessionModel { rows: self.session@.rows + 1, ..stepped })
        &&& after.quota == self.quota
        &&& record.tells_of(stepped)
        &&& record.carries(row)
    }

    /// True when `record` and `after` are what `gives` says, and the record
    /// is written at the clock of the session after the step.
    pub open spec fn gives_on_time(
        &self,
        after: &GenerationWorker,
        record: SyntheticSqlRecord,
        row: RowDraws,
        step: StepDraws,
        now: int,
    ) -> bool {
        &&& self.gives(after, record, row, step, now)
        &&& record.is_timed_by(self.session@.step(step, now, row.identity_text()))
    }

    /// True when `record` and `after` can come of one row at the instant
    /// `now`: some draws in their ranges give them, with the record written
    /// at the clock of the session after the step, and the record is
    /// consistent and plain.
    pub open spec fn can_give(
        &self,
        after: &GenerationWorker,
        record: SyntheticSqlRecord,
        now: int,
    ) -> bool {
        &&& exists|row: RowDraws, step: StepDraws|
            row.sampled() && step.sampled() && #[trigger] self.gives_on_time(
                after,
                record,
                row,
                step,
                now,
            )
        &&& record.is_consistent(now)
        &&& record.is_plain()
        &&& after.wf()
    }

    /// A worker for `quota` rows whose first connection is that of the
    /// database address, the client address and the application of `first`,
    /// and begins `days_back` days before `now`.
    pub fn begin(quota: usize, first: &RowDraws, now: i64, days_back: i64) -> (worker:
        GenerationWorker)
        requires
            first.sampled(),
            usable_now(now),
            0 <= days_back <= MAX_DAYS_BACK,
        ensures
            worker.wf(),
            worker.quota == quota,
            worker.session@ == (SessionModel {
                identity: first.identity_text(),
                statement: 1,
                execution: 1,
                clock: now - days_back * SECONDS_PER_DAY,
                rows: 0,
            }),
    {
        let session = ConnectionSession::open(first.identity(), now, days_back);
        GenerationWorker { session, quota }
    }

    /// True when the worker is one that starts on `quota` rows at the
    /// instant `now`: it has given no row, both counters stand at 1, the
    /// identity is that of the database address, the client address and the
    /// application of some row that can be drawn, and the clock stands from
    /// `MIN_START_DAYS_BACK` to `MAX_DAYS_BACK` days before `now`.
    pub open spec fn starts(&self, quota: usize, now: int) -> bool {
        &&& self.wf()
        &&& self.quota == quota
        &&& self.session@.rows == 0
        &&& self.session@.statement == 1
        &&& self.session@.execution == 1
        &&& exists|row: RowDraws|
            row.sampled() && self.session@.identity == #[trigger] row.identity_text()
        &&& exists|days_back: int|
            MIN_START_DAYS_BACK <= days_back <= MAX_DAYS_BACK && self.session@.clock == now
                - #[trigger] (days_back * SECONDS_PER_DAY)
    }

    /// A worker for `quota` rows at the instant `now`: its first connection
    /// is that of a database address, a client address and an application
    /// drawn as for a row, and begins from `MIN_START_DAYS_BACK` to
    /// `MAX_DAYS_BACK` days before `now`.
    pub fn start_at(quota: usize, rng: &mut RandomSource, now: i64) -> (worker: GenerationWorker)
        requires
            usable_now(now),
        ensures
            worker.starts(quota, now as int),
            CALENDAR_START + MAX_DAYS_BACK * SECONDS_PER_DAY <= now <= CALENDAR_END
                - MAX_STEP_SECONDS ==> worker.ready_at(now),
    {
        let first = RowDraws::sample(rng);
        let days_back = rng.draw(MIN_START_DAYS_BACK as u64, MAX_DAYS_BACK as u64 + 1) as i64;
        let worker = GenerationWorker::begin(quota, &first, now, days_back);
        assert(worker.session@.identity == first.identity_text());
        assert(worker.session@.clock == now - (days_back as int) * SECONDS_PER_DAY);
        worker
    }

    /// A worker for `quota` rows at the instant the wall clock shows; `None`
    /// where the wall clock shows an instant too close to the ends of `i64`
    /// for clock arithmetic.
    ///
    /// # Panics
    ///
    /// Reading the wall clock panics on a machine whose clock stands before
    /// 1970. `start_from` takes the instant from the caller and never
    /// panics.
    pub fn start(quota: usize, rng: &mut RandomSource) -> (r: Option<GenerationWorker>)
        ensures
            exists|now: i64| #[trigger] GenerationWorker::start_outcome(quota, now, r),
            r matches Some(worker) ==> worker.wf() && worker.quota == quota,
    {
        let now = utc_now_seconds();
        let r = GenerationWorker::start_from(quota, rng, now);
        proof {
            // The instant that the clock showed is the witness.
            assert(GenerationWorker::start_outcome(quota, now, r));
        }
        r
    }

    /// Whether the quota is met, so that the worker has no further row to
    /// give.
    pub fn is_done(&self) -> (done: bool)
        ensures
            done == self.done(),
    {
        self.session.rows_emitted >= self.quota
    }

    /// Gives the row that the draws `row` and `step` make at the instant
    /// `now`, around a statement, its column list and the written time of
    /// its execution: the session takes the step and counts the row, and the
    /// record is put together from the session after the step, the draws,
    /// and the three texts, with the hash and the bind values of the
    /// statement.
    pub fn produce_with(
        &mut self,
        row: &RowDraws,
        step: &StepDraws,
        now: i64,
        exec_time: String,
        select_cols: String,
        sql_stmt: String,
    ) -> (record: SyntheticSqlRecord)
        requires
            old(self).wf(),
            !old(self).done(),
            row.sampled(),
            step.sampled(),
            usable_now(now),
        ensures
            old(self).gives(final(self), record, *row, *step, now as int),
            final(self).wf(),
            record.exec_time@ == exec_time@,
            record.select_cols@ == select_cols@,
            record.sql_stmt@ == sql_stmt@,
            record.sql_hash@ == statement_hash_text(sql_stmt@),
            record.stmt_bind_vars@ == bind_values_text(sql_stmt@),
            is_hash_form(record.sql_hash@),
    {
        let db_ip = db_address(row.db_net, row.db_node);
        let client_ip = client_address(row.client_net, row.client_node);
        let app = app_name(row.app_roll);
        self.session.advance(step, now, db_ip.as_str(), client_ip.as_str(), app);
        let conn_hash = self.session.connection_identity.clone();
        let stmt_id = self.session.statement_sequence;
        let exec_id = self.session.execution_sequence;
        self.session.count_row();
        let sql_hash = gen_sql_hash(sql_stmt.as_str());
        let stmt_bind_vars = extract_where_values(sql_stmt.as_str());
        SyntheticSqlRecord {
            conn_hash,
            stmt_id,
            exec_id,
            exec_time,
            sql_type: StatementKind::from_roll(row.kind_roll),
            exe_status: String::from_str(status_name(row.status)),
            db_ip,
            client_ip,
            client_host: String::from_str(client_host_name(row.client_host)),
            app_name: String::from_str(app),
            db_user: String::from_str(db_user_name(row.db_user)),
            sql_hash,
            from_tbs: String::from_str(table_name(row.table)),
            select_cols,
            sql_stmt,
            stmt_bind_vars,
        }
    }

    /// Gives one row at the instant `now`: draws its fields and the step of
    /// the session, writes a fresh statement, and puts the record together.
    /// `None`, with the worker as it was, where the calendar cannot hold the
    /// instant of the execution or an end of the statement's date range,
    /// which is never so where `ready_at` holds. A worker that was ready
    /// stays so.
    pub fn produce_at(&mut self, rng: &mut RandomSource, now: i64) -> (r: Option<
        SyntheticSqlRecord,
    >)
        requires
            old(self).wf(),
            !old(self).done(),
            usable_now(now),
        ensures
            r matches Some(record) ==> old(self).can_give(final(self), record, now as int),
            r is None ==> *final(self) == *old(self),
            old(self).ready_at(now) ==> r is Some && final(self).ready_at(now),
    {
        let row = RowDraws::sample(rng);
        let step = StepDraws::sample(rng);
        let kind = StatementKind::from_roll(row.kind_roll);
        let table = table_name(row.table);
        proof {
            kind.lemma_name_round_trip();
            kind.lemma_select_name();
        }
        let select_cols = generate_select_cols(kind.name(), rng);
        let sql_stmt = match generate_sql_stmt(kind.name(), table, select_cols.as_str(), rng, now) {
            Some(text) => text,
            None => {
                return None;
            },
        };
        let clock = self.session.clock_after(&step, now);
        proof {
            let next = self.session@.step(step, now as int, row.identity_text());
            assert(clock == next.clock);
            assert(old(self).ready_at(now) ==> in_calendar(clock));
        }
        let exec_time = match timestamp_text(clock) {
            Some(text) => text,
            None => {
                return None;
            },
        };
        let record = self.produce_with(&row, &step, now, exec_time, select_cols, sql_stmt);
        proof {
            let stepped = old(self).session@.step(step, now as int, row.identity_text());
            lemma_timestamp_of_is_text(record.exec_time@, stepped.clock);
            assert(record.is_consistent(now as int));
            assert(self.session@.identity == stepped.identity);
            lemma_record_plain(record, row, stepped, now as int);
            assert(old(self).gives_on_time(self, record, row, step, now as int));
        }
        Some(record)
    }

    /// Gives one row at the instant the wall clock shows. `None`, with the
    /// worker as it was, where the quota is met, where the wall clock shows
    /// an instant too close to the ends of `i64` for clock arithmetic, and
    /// where the calendar cannot hold an instant of the row.
    ///
    /// # Panics
    ///
    /// Reading the wall clock panics on a machine whose clock stands before
    /// 1970. `produce_from` takes the instant from the caller and never
    /// panics.
    pub fn produce(&mut self, rng: &mut RandomSource) -> (r: Option<SyntheticSqlRecord>)
        requires
            old(self).wf(),
        ensures
            exists|now: i64| #[trigger] old(self).produce_outcome(final(self), now, r),
            r is None ==> *final(self) == *old(self),
            old(self).done() ==> r is None,
    {
        if self.is_done() {
            assert(self.produce_outcome(self, 0, None));
            return None;
        }
        let now = utc_now_seconds();
        let r = self.produce_from(rng, now);
        assert(old(self).produce_outcome(self, now, r));
        r
    }

    /// True when `r` is what starting on `quota` rows gives where the clock
    /// shows the instant `now`: a worker that starts at `now` where clock
    /// arithmetic around `now` stays within `i64`, and nothing for any other
    /// instant.
    pub open spec fn start_outcome(quota: usize, now: i64, r: Option<GenerationWorker>) -> bool {
        &&& r is Some <==> usable_now(now)
        &&& r matches Some(worker) ==> worker.starts(quota, now as int)
    }

    /// True when `r` and the worker `after` are what asking this worker for
    /// a row gives where the clock shows the instant `now`. A row comes only
    /// where the quota is not met and clock arithmetic around `now` stays
    /// within `i64`, and it is a row that the worker can give at `now`.
    /// Without a row the worker is as it was. A row is sure to come where
    /// the quota is not met and `ready_at` holds, and the worker then stays
    /// ready.
    pub open spec fn produce_outcome(
        &self,
        after: &GenerationWorker,
        now: i64,
        r: Option<SyntheticSqlRecord>,
    ) -> bool {
        &&& r matches Some(record) ==> usable_now(now) && !self.done() && self.can_give(
            after,
            record,
            now as int,
        )
        &&& r is None ==> *after == *self
        &&& !self.done() && self.ready_at(now) ==> r is Some && after.ready_at(now)
    }

    /// A worker for `quota` rows where the clock shows the instant `now`: a
    /// worker that starts at `now` where clock arithmetic around `now` stays
    /// within `i64`, and `None` for any other instant.
    pub fn start_from(quota: usize, rng: &mut RandomSource, now: i64) -> (r: Option<
        GenerationWorker,
    >)
        ensures
            GenerationWorker::start_outcome(quota, now, r),
            r matches Some(worker) ==> (CALENDAR_START + MAX_DAYS_BACK * SECONDS_PER_DAY <= now
                <= CALENDAR_END - MAX_STEP_SECONDS ==> worker.ready_at(now)),
    {
        if is_usable_now(now) {
            Some(GenerationWorker::start_at(quota, rng, now))
        } else {
            None
        }
    }

    /// Gives one row where the clock shows the instant `now`. `None`, with
    /// the worker as it was, where the quota is met, where clock arithmetic
    /// around `now` does not stay within `i64`, and where the calendar cannot
    /// hold an instant of the row. A row is sure to be given where the quota
    /// is not met and `ready_at` holds, and the worker then stays ready.
    pub fn produce_from(&mut self, rng: &mut RandomSource, now: i64) -> (r: Option<
        SyntheticSqlRecord,
    >)
        requires
            old(self).wf(),
        ensures
            old(self).produce_outcome(final(self), now, r),
    {
        if self.is_done() || !is_usable_now(now) {
            return None;
        }
        self.produce_at(rng, now)
    }
}

/// Every row that a worker gives counts against the quota: one row fewer is
/// left to give, so that a worker gives as many rows as its quota asks for
/// and no more.
pub proof fn lemma_given_row_counts(
    before: GenerationWorker,
    after: GenerationWorker,
    record: SyntheticSqlRecord,
    now: int,
)
    requires
        before.can_give(&after, record, now),
    ensures
        after.rows_left() == before.rows_left() - 1,
        after.rows_left() >= 0,
        after.quota == before.quota,
{
    let (row, step) = choose|row: RowDraws, step: StepDraws|
        row.sampled() && step.sampled() && #[trigger] before.gives_on_time(
            &after,
            record,
            row,
            step,
            now,
        );
}

/// The identity of every row is that of some database address, client
/// address and application, and has the form of an identity: a worker that
/// starts has such an identity, and a worker that has one keeps one with
/// every row and writes it into the row.
pub proof fn lemma_given_row_identity(
    before: GenerationWorker,
    after: GenerationWorker,
    record: SyntheticSqlRecord,
    now: int,
)
    requires
        before.can_give(&after, record, now),
        before.has_derived_identity(),
    ensures
        after.has_derived_identity(),
        is_connection_identity(record.conn_hash@),
        is_identity_form(record.conn_hash@),
{
    let (row, step) = choose|row: RowDraws, step: StepDraws|
        row.sampled() && step.sampled() && #[trigger] before.gives_on_time(
            &after,
            record,
            row,
            step,
            now,
        );
    let stepped = before.session@.step(step, now, row.identity_text());
    assert(stepped.identity == before.session@.identity || stepped.identity
        == row.identity_text());
    assert(is_connection_identity(row.identity_text())) by {
        assert(row.identity_text() == connection_identity_text(
            db_ip_text(row.db_net as nat, row.db_node as nat),
            client_ip_text(row.client_net as nat, row.client_node as nat),
            app_name_text(row.app_roll as int),
        ));
    }
}

/// A worker that starts has the identity of some database address, client
/// address and application.
pub proof fn lemma_started_identity(worker: GenerationWorker, quota: usize, now: int)
    requires
        worker.starts(quota, now),
    ensures
        worker.has_derived_identity(),
        is_identity_form(worker.session@.identity),
{
    let row = choose|row: RowDraws|
        row.sampled() && worker.session@.identity == #[trigger] row.identity_text();
    assert(worker.session@.identity == connection_identity_text(
        db_ip_text(row.db_net as nat, row.db_node as nat),
        client_ip_text(row.client_net as nat, row.client_node as nat),
        app_name_text(row.app_roll as int),
    ));
}

/// The written time of every row is the time that the clock of some time
/// zone shows at the instant where the session's clock stands after the
/// row: read as a time in UTC it lies less than a day from that instant.
pub proof fn lemma_given_row_time(
    before: GenerationWorker,
    after: GenerationWorker,
    record: SyntheticSqlRecord,
    now: int,
)
    requires
        before.can_give(&after, record, now),
    ensures
        is_timestamp_of(record.exec_time@, after.session@.clock),
{
    let (row, step) = choose|row: RowDraws, step: StepDraws|
        row.sampled() && step.sampled() && #[trigger] before.gives_on_time(
            &after,
            record,
            row,
            step,
            now,
        );
}

/// The line of every row that a worker gives has `FIELD_COUNT` fields and
/// holds no line break.
pub proof fn lemma_given_row_has_all_fields(
    before: GenerationWorker,
    after: GenerationWorker,
    record: SyntheticSqlRecord,
    now: int,
)
    requires
        before.can_give(&after, record, now),
    ensures
        field_count(record.line_text()) == FIELD_COUNT,
        lacks(record.line_text(), '\n'),
{
    record.lemma_line_field_count();
    record.lemma_plain_is_unbroken();
    record.lemma_unbroken_line_is_one_line();
}

} // verus!
