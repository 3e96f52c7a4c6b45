//! The rules of a ledger server for a construction project, over
//! [hledger](https://hledger.org): what may be written to the journal and how, what a
//! connection has to have read before it may decide, and what the reports say.
//!
//! - [`hledger`]: what hledger is asked and what it answers, with exact amounts.
//! - [`write`]: validating, formatting, appending, voiding, replacing; budgets; the epoch
//!   that a connection has seen.
//! - [`epoch`]: the check of a decision against the head.
//! - [`domain`], [`flags`]: the accounts, transactions and reports of a project, and the
//!   warnings that go with them.
//! - [`server`]: the tools and their answers; [`catalog`], [`resources`], [`protocol`] are
//!   what is advertised.
//! - [`sums`]: sums of integers, by which the laws count and add up.
//!
//! Nothing here reads or writes files, runs processes or waits. An operation that needs such
//! work in between is a state that names the next action and takes its reply.

pub mod catalog;
pub mod date;
pub mod decimal;
pub mod domain;
pub mod epoch;
pub mod flags;
pub mod guides;
pub mod hledger;
pub mod path;
pub mod protocol;
pub mod resources;
pub mod server;
pub mod sums;
pub mod text;
pub mod write;
