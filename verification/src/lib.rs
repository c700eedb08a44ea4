//! Synthetic SQL audit-log rows for load tests and fixtures.
//!
//! A run is shared among workers. Each worker owns a random source and the
//! session of one simulated database connection, which ages through a
//! statement counter, an execution counter and a simulated clock, and is
//! retired and begun again under a new identity from time to time. For each
//! row the worker advances the session, writes a fresh SQL statement, and
//! derives from the statement its hash and its bind values.
//!
//! - [`plan`]: rows asked for on the command line, workers, quota.
//! - [`random`]: the random source of a worker.
//! - [`clock`]: instants, the wall clock, written calendar time.
//! - [`vocabulary`]: the fixed lists that rows are drawn from.
//! - [`conditions`] and [`statements`]: `WHERE` clauses and statements.
//! - [`literals`]: the literals of a statement, its bind values, its shape.
//! - [`hashing`]: connection identities and statement hashes.
//! - [`shape`] and [`clause_shape`]: why a hash tells the shape of a
//!   statement and nothing of the values in it.
//! - [`session`]: the life of one connection, step by step.
//! - [`record`]: a row and its tab-separated line.
//! - [`worker`]: the worker that gives the rows.
//! - [`text`]: numerals, joining, and plain text.
//!
//! Nothing here writes files or starts threads: a worker hands out one row
//! at a time, and the caller sends it where it belongs.

pub mod clause_shape;
pub mod clock;
pub mod conditions;
pub mod hashing;
pub mod literals;
pub mod plan;
pub mod random;
pub mod record;
pub mod session;
pub mod shape;
pub mod statements;
pub mod text;
pub mod vocabulary;
pub mod worker;
