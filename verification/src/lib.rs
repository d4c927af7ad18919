//! A ledger engine: sign-tagged fixed-point amounts, the per-account balance
//! state machine, the index of referenced transactions, and the two passes
//! that link dispute-family records to the deposits they cite.

pub mod amount;
pub mod db;
pub mod decimal;
pub mod engine;
pub mod laws;
pub mod output;
pub mod parser;
