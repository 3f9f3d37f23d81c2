//! A vesting-schedule engine: accounts hold funds that are nominally owned
//! but contractually locked, unlocking linearly as the block counter advances.
//!
//! `schedule` holds the linear release descriptor and the arithmetic that
//! derives the still-locked amount; `ledger` models the account state (free
//! balances, the bounded per-account lock table, the stored schedule and the
//! block counter); `engine` is the vesting engine and the call surface;
//! `setup` holds the standard test configuration and scenario builders.

pub mod errors;
pub mod schedule;
pub mod locktable;
pub mod ledger;
pub mod engine;
pub mod setup;
