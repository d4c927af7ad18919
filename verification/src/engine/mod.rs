//! The account state machine and what feeds it.

pub mod client;
pub mod laws;
pub mod transaction;

pub use client::Client;
pub use transaction::Transaction;

use crate::amount::{CreditUsd, Usd};
use crate::db::Db;
use client::Outcome;
use vstd::prelude::*;

verus! {

/// The amount of nothing.
pub fn zero_usd() -> (r: Usd)
    ensures
        r@ == 0,
        r is Credit,
{
    Usd::zero()
}

/// The amount of nothing, as the credit that it is.
pub fn zero_usd_as_credit() -> (r: CreditUsd)
    ensures
        r@ == 0,
{
    CreditUsd::zero()
}

/// Hands a movement to the account `client_id`, which exists from then on:
/// where the id is new, a fresh account takes the movement.
pub fn engine(db: &mut Db, transaction: Transaction, client_id: u16) -> (outcome: Outcome)
    ensures
        final(db)@ == old(db)@.dispatch(client_id, transaction@),
        outcome == old(db)@.account(client_id).outcome(transaction@),
{
    let client = db.get_client(client_id);
    match client {
        None => {
            let mut client = Client::new();
            let outcome = client.handle_transaction(transaction);
            db.add_client(client_id, client);
            outcome
        },
        Some(client) => client.handle_transaction(transaction),
    }
}

} // verus!
