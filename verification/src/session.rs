//! The life of one simulated connection: an identity, a statement counter,
//! an execution counter and a simulated clock, advanced once for each row.
//!
//! The statement cap is drawn anew for every row, from `MIN_STATEMENT_CAP` to
//! `MAX_STATEMENT_CAP`; it is not fixed for the life of a connection.

use crate::clock::{usable_now, MAX_DAYS_BACK, MAX_STEP_SECONDS, SECONDS_PER_DAY};
use crate::hashing::{connection_identity_text, gen_conn_hash, is_identity_form};
use crate::random::RandomSource;
use vstd::prelude::*;
use vstd::string::*;

verus! {

/// How often one statement is executed before the next statement begins.
pub const EXECUTION_CAP: usize = 3;

/// The least statement cap that is drawn.
pub const MIN_STATEMENT_CAP: usize = 30;

/// The greatest statement cap that is drawn.
pub const MAX_STATEMENT_CAP: usize = 3000;

/// What is drawn for one step of a session.
#[derive(Clone, Copy, Debug, PartialEq, Eq, Structural)]
pub struct StepDraws {
    /// How many statements the connection may hold at this step.
    pub statement_cap: usize,
    /// How many days before the wall clock a new connection begins.
    pub days_back: i64,
    /// By how many seconds the simulated clock advances.
    pub increment: i64,
}

impl StepDraws {
    /// Each draw lies in its range: the cap from `MIN_STATEMENT_CAP` to
    /// `MAX_STATEMENT_CAP`, the days from 1 to `MAX_DAYS_BACK`, the seconds
    /// from 1 to `MAX_STEP_SECONDS`.
    pub open spec fn sampled(self) -> bool {
        &&& MIN_STATEMENT_CAP <= self.statement_cap <= MAX_STATEMENT_CAP
        &&& 1 <= self.days_back <= MAX_DAYS_BACK
        &&& 1 <= self.increment <= MAX_STEP_SECONDS
    }
}

impl StepDraws {
    /// Draws what one step of a session needs.
    pub fn sample(rng: &mut RandomSource) -> (draws: StepDraws)
        ensures
            draws.sampled(),
    {
        let statement_cap = rng.draw(
            MIN_STATEMENT_CAP as u64,
            MAX_STATEMENT_CAP as u64 + 1,
        ) as usize;
        let days_back = rng.draw(1, MAX_DAYS_BACK as u64 + 1) as i64;
        let increment = rng.draw(1, MAX_STEP_SECONDS as u64 + 1) as i64;
        StepDraws { statement_cap, days_back, increment }
    }
}

/// A session as plain values.
pub struct SessionModel {
    pub identity: Seq<char>,
    pub statement: nat,
    pub execution: nat,
    pub clock: int,
    pub rows: nat,
}

impl SessionModel {
    /// Both counters start at 1; the execution counter stays within
    /// `EXECUTION_CAP` and the statement counter within `MAX_STATEMENT_CAP`.
    pub open spec fn wf(self) -> bool {
        &&& 1 <= self.statement <= MAX_STATEMENT_CAP
        &&& 1 <= self.execution <= EXECUTION_CAP
    }

    /// True when the next execution begins a new statement: the current
    /// statement has been executed `EXECUTION_CAP` times.
    pub open spec fn begins_statement(self) -> bool {
        self.execution + 1 > EXECUTION_CAP
    }

    /// The statement counter once the next execution is counted.
    pub open spec fn counted_statement(self) -> nat {
        if self.begins_statement() {
            self.statement + 1
        } else {
            self.statement
        }
    }

    /// The execution counter once the next execution is counted.
    pub open spec fn counted_execution(self) -> nat {
        if self.begins_statement() {
            1
        } else {
            self.execution + 1
        }
    }

    /// True when the connection is retired at this step: counting the next
    /// execution takes the statement counter past `statement_cap`, or the
    /// simulated clock has caught up with the wall clock `now`.
    pub open spec fn rolls_over(self, statement_cap: nat, now: int) -> bool {
        self.counted_statement() > statement_cap || self.clock >= now
    }

    /// The session after one step. The next execution is counted first,
    /// beginning a new statement where the cap on executions is passed. Then
    /// the connection is retired where `rolls_over` says so: it gets the
    /// identity `fresh`, both counters return to 1, and the clock is set
    /// `days_back` days before `now`. Last, at every step, the clock
    /// advances by `increment` seconds.
    pub open spec fn step(self, draws: StepDraws, now: int, fresh: Seq<char>) -> SessionModel {
        if self.rolls_over(draws.statement_cap as nat, now) {
            SessionModel {
                identity: fresh,
                statement: 1,
                execution: 1,
                clock: now - draws.days_back * SECONDS_PER_DAY + draws.increment,
                rows: self.rows,
            }
        } else {
            SessionModel {
                identity: self.identity,
                statement: self.counted_statement(),
                execution: self.counted_execution(),
                clock: self.clock + draws.increment,
                rows: self.rows,
            }
        }
    }

    /// True when some draws in their ranges and some fresh identity take
    /// this session to `next` in one step at the instant `now`.
    pub open spec fn steps_to(self, next: SessionModel, now: int) -> bool {
        exists|draws: StepDraws, fresh: Seq<char>|
            draws.sampled() && next == #[trigger] self.step(draws, now, fresh)
    }
}

/// A step keeps the counters in their ranges, and the statement counter
/// within the cap that was drawn for the step.
pub proof fn lemma_step_keeps_counters(
    session: SessionModel,
    draws: StepDraws,
    now: int,
    fresh: Seq<char>,
)
    requires
        session.wf(),
        draws.sampled(),
    ensures
        session.step(draws, now, fresh).wf(),
        session.step(draws, now, fresh).statement <= draws.statement_cap,
        session.step(draws, now, fresh).rows == session.rows,
{
}

/// While the connection lives on, the execution counter returns to 1
/// exactly when the statement counter goes up by one; otherwise the
/// statement counter stays and the execution counter goes up by one.
pub proof fn lemma_execution_resets_with_statement(
    session: SessionModel,
    draws: StepDraws,
    now: int,
    fresh: Seq<char>,
)
    requires
        session.wf(),
        draws.sampled(),
        !session.rolls_over(draws.statement_cap as nat, now),
    ensures
        ({
            let next = session.step(draws, now, fresh);
            &&& next.identity == session.identity
            &&& (next.execution == 1 <==> next.statement == session.statement + 1)
            &&& (next.execution != 1 ==> next.statement == session.statement && next.execution
                == session.execution + 1)
            &&& next.statement <= draws.statement_cap
        }),
{
}

/// A retired connection begins again with both counters at 1.
pub proof fn lemma_rollover_resets(
    session: SessionModel,
    draws: StepDraws,
    now: int,
    fresh: Seq<char>,
)
    requires
        session.rolls_over(draws.statement_cap as nat, now),
    ensures
        ({
            let next = session.step(draws, now, fresh);
            &&& next.identity == fresh
            &&& next.statement == 1
            &&& next.execution == 1
        }),
{
}

/// While the connection lives on, its clock moves forward with every step.
pub proof fn lemma_clock_moves_forward(
    session: SessionModel,
    draws: StepDraws,
    now: int,
    fresh: Seq<char>,
)
    requires
        draws.sampled(),
        !session.rolls_over(draws.statement_cap as nat, now),
    ensures
        session.step(draws, now, fresh).clock > session.clock,
{
}

/// After a step the clock is behind the wall clock, where the connection
/// was retired at this step or the clock was more than `increment` seconds
/// behind before the step. A clock that is closer to the wall clock than
/// that, on a connection that lives on, reaches or passes the wall clock at
/// this step; the connection is then retired at the next.
pub proof fn lemma_clock_behind_wall_clock(
    session: SessionModel,
    draws: StepDraws,
    now: int,
    fresh: Seq<char>,
)
    requires
        draws.sampled(),
        session.rolls_over(draws.statement_cap as nat, now) || session.clock + draws.increment
            < now,
    ensures
        session.step(draws, now, fresh).clock < now,
{
}

/// After any step the clock is less than `increment` seconds ahead of the
/// wall clock.
pub proof fn lemma_clock_near_wall_clock(
    session: SessionModel,
    draws: StepDraws,
    now: int,
    fresh: Seq<char>,
)
    requires
        draws.sampled(),
    ensures
        session.step(draws, now, fresh).clock < now + draws.increment,
{
}

/// A clock that has reached the wall clock retires the connection at the
/// next step, whatever is drawn.
pub proof fn lemma_caught_up_clock_retires(session: SessionModel, statement_cap: nat, now: int)
    requires
        session.clock >= now,
    ensures
        session.rolls_over(statement_cap, now),
{
}

/// One simulated connection.
#[derive(Debug)]
pub struct ConnectionSession {
    /// The identity that rows of the connection carry.
    pub connection_identity: String,
    /// Which statement of the connection is being executed, from 1.
    pub statement_sequence: usize,
    /// Which execution of the statement this is, from 1.
    pub execution_sequence: usize,
    /// When the last execution happened, in seconds since the Unix epoch.
    pub simulated_clock: i64,
    /// How many rows the session has given.
    pub rows_emitted: usize,
}

impl View for ConnectionSession {
    type V = SessionModel;

    open spec fn view(&self) -> SessionModel {
        SessionModel {
            identity: self.connection_identity@,
            statement: self.statement_sequence as nat,
            execution: self.execution_sequence as nat,
            clock: self.simulated_clock as int,
            rows: self.rows_emitted as nat,
        }
    }
}

impl ConnectionSession {
    /// The counters lie in their ranges.
    pub open spec fn wf(&self) -> bool {
        self@.wf()
    }

    /// Whether the counters lie in their ranges.
    pub fn is_well_formed(&self) -> (ok: bool)
        ensures
            ok == self.wf(),
    {
        1 <= self.statement_sequence && self.statement_sequence <= MAX_STATEMENT_CAP && 1
            <= self.execution_sequence && self.execution_sequence <= EXECUTION_CAP
    }

    /// A new session under `identity`, with both counters at 1, no row
    /// given, and the clock `days_back` days before `now`.
    pub fn open(identity: String, now: i64, days_back: i64) -> (session: ConnectionSession)
        requires
            usable_now(now),
            0 <= days_back <= MAX_DAYS_BACK,
        ensures
            session.wf(),
            session@ == (SessionModel {
                identity: identity@,
                statement: 1,
                execution: 1,
                clock: now - days_back * SECONDS_PER_DAY,
                rows: 0,
            }),
    {
        ConnectionSession {
            connection_identity: identity,
            statement_sequence: 1,
            execution_sequence: 1,
            simulated_clock: now - days_back * SECONDS_PER_DAY,
            rows_emitted: 0,
        }
    }

    /// Whether the connection is retired at a step with the cap
    /// `statement_cap` at the instant `now`.
    pub fn is_due_for_rollover(&self, statement_cap: usize, now: i64) -> (due: bool)
        requires
            self.wf(),
        ensures
            due == self@.rolls_over(statement_cap as nat, now as int),
    {
        let counted = if self.execution_sequence + 1 > EXECUTION_CAP {
            self.statement_sequence + 1
        } else {
            self.statement_sequence
        };
        counted > statement_cap || self.simulated_clock >= now
    }

    /// Where the clock stands after a step with `draws` at the instant
    /// `now`.
    pub fn clock_after(&self, draws: &StepDraws, now: i64) -> (clock: i64)
        requires
            self.wf(),
            draws.sampled(),
            usable_now(now),
        ensures
            forall|fresh: Seq<char>|
                clock == (#[trigger] self@.step(*draws, now as int, fresh)).clock,
    {
        if self.is_due_for_rollover(draws.statement_cap, now) {
            now - draws.days_back * SECONDS_PER_DAY + draws.increment
        } else {
            self.simulated_clock + draws.increment
        }
    }

    /// Takes the session one step on, at the instant `now`, for a row of the
    /// connection between `db_ip`, `client_ip` and `app_name`: a connection
    /// that is retired at this step gets its new identity from the three.
    /// Says whether the connection was retired.
    pub fn advance(
        &mut self,
        draws: &StepDraws,
        now: i64,
        db_ip: &str,
        client_ip: &str,
        app_name: &str,
    ) -> (rolled: bool)
        requires
            old(self).wf(),
            draws.sampled(),
            usable_now(now),
        ensures
            final(self)@ == old(self)@.step(
                *draws,
                now as int,
                connection_identity_text(db_ip@, client_ip@, app_name@),
            ),
            rolled == old(self)@.rolls_over(draws.statement_cap as nat, now as int),
            final(self).wf(),
            is_identity_form(old(self)@.identity) ==> is_identity_form(final(self)@.identity),
    {
        self.execution_sequence = self.execution_sequence + 1;
        if self.execution_sequence > EXECUTION_CAP {
            self.statement_sequence = self.statement_sequence + 1;
            self.execution_sequence = 1;
        }
        let rolled = self.statement_sequence > draws.statement_cap || self.simulated_clock >= now;
        if rolled {
            self.connection_identity = gen_conn_hash(db_ip, client_ip, app_name);
            self.statement_sequence = 1;
            self.execution_sequence = 1;
            self.simulated_clock = now - draws.days_back * SECONDS_PER_DAY;
        }
        self.simulated_clock = self.simulated_clock + draws.increment;
        rolled
    }

    /// Counts one more row as given.
    pub fn count_row(&mut self)
        requires
            old(self).rows_emitted < usize::MAX,
        ensures
            final(self)@ == (SessionModel { rows: old(self)@.rows + 1, ..old(self)@ }),
    {
        self.rows_emitted = self.rows_emitted + 1;
    }
}

} // verus!
