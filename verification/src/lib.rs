//! A minimal voting ledger: projects are registered under caller-chosen
//! string identifiers, each successful vote appends an immutable receipt
//! recording the voter's identity, and a running total can be read back.
//!
//! The core is the [`store::BallotStore`] state machine together with the
//! pure decision rules in [`step`]; the host platform that persists the
//! ledger and dispatches calls sits outside this crate.

pub mod errors;
pub mod laws;
pub mod model;
pub mod step;
pub mod store;
