//! Speculative escrow execution: nested contract calls, made by an escrow
//! account on behalf of a requester, whose storage changes are always
//! discarded at the top level, while every transfer, storage write and
//! visited contract is captured in an ordered trace.
//!
//! - `records`: the trace records and the account encoding.
//! - `ledger`: limits, gas, and the balances that transfers move.
//! - `model`: the contract directory, executable code, and the
//!   specification of a call chain over plain values.
//! - `exec`: the escrow transfer protocol, the host interface that code runs
//!   against, and the call orchestrator, each proved against `model`.
//! - `laws`: properties of every call chain, proved from `model`.

pub mod records;
pub mod ledger;
pub mod model;
pub mod exec;
pub mod laws;
