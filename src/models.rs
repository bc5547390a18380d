//! The values exchanged between the facade and the two stores.

use vstd::prelude::*;

verus! {

/// A transaction as a client submits it.
pub struct TransactionMessage {
    pub user_id: String,
    pub amount: i64,
}

/// A transaction as the facade sends it to both stores.
pub struct TransactionCommand {
    pub transaction_id: String,
    pub user_id: String,
    pub amount: i64,
}

/// The ledger's reply to an applied transaction.
pub struct TransactionResponse {
    pub user_id: String,
    pub balance: i64,
}

/// A user's balance together with the amounts logged for the user.
pub struct UserInfoResponse {
    pub balance: i64,
    pub transactions: Vec<i64>,
}

/// The backend that a timing belongs to.
#[derive(Clone, Copy, Debug, PartialEq, Eq, Structural)]
pub enum ServiceKind {
    /// The balance ledger.
    Counter,
    /// The transaction log.
    Logging,
}

/// Accumulated round-trip time, in nanoseconds, per backend.
#[derive(Clone, Copy, Debug, PartialEq, Eq, Structural)]
pub struct Metrics {
    pub counter_time: u128,
    pub logging_time: u128,
}

/// Why a store refused a command.
#[derive(Clone, Copy, Debug, PartialEq, Eq, Structural)]
pub enum StoreError {
    /// An identifier was empty.
    Validation,
    /// The new balance does not fit in an `i64`.
    Overflow,
}

impl TransactionCommand {
    /// A command is accepted by the stores when both identifiers are non-empty.
    pub open spec fn is_valid(&self) -> bool {
        self.transaction_id@.len() > 0 && self.user_id@.len() > 0
    }
}

impl Metrics {
    /// Both counters at zero.
    pub fn new() -> (r: Metrics)
        ensures
            r.counter_time == 0,
            r.logging_time == 0,
    {
        Metrics { counter_time: 0, logging_time: 0 }
    }
}

} // verus!
