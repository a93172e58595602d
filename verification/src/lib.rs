//! Accounting core of a token-launch platform: a project registry with
//! allocation invariants, a participation ledger with fixed-point token
//! allocation, a loyalty-points sub-ledger, and a cliff-and-linear vesting
//! engine that releases purchased tokens after a campaign is finalized.
//!
//! The whole state is an explicit record over plain values: principals and
//! token contracts are `u64` ids, and the current time is a parameter of
//! every time-gated operation. Reading the clock, checking caller
//! credentials, persisting the record and moving the issued token are the
//! surrounding host's work.

pub mod balances;
pub mod errors;
pub mod launch;
pub mod star_token;
pub mod storage;
pub mod vesting;
