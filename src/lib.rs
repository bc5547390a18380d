//! A small transaction pipeline: a balance ledger, a transaction log, latency
//! metrics, and the facade that fans each request out to both stores and
//! reconciles their replies.
//!
//! Amounts are whole numbers of the smallest currency unit.

pub mod models;
pub mod messages;
pub mod logging;
pub mod facade;
