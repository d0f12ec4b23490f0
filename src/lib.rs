//! A stateful harness for running instructions of an account-based virtual
//! machine: account compilation, a program cache, a pluggable account store,
//! a sysvar snapshot, and single-instruction, chained and transaction-scoped
//! execution over a pluggable execution engine.

pub mod address;
pub mod account;
pub mod keys;
pub mod keyed;
pub mod rent;
pub mod store;
pub mod sysvar;
pub mod compile_accounts;
pub mod laws;
pub mod program;
pub mod mollusk;
pub mod context;
