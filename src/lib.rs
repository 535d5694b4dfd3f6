//! Replays deposits, withdrawals and disputes against per-client accounts.
use vstd::prelude::*;

pub mod account_state;
pub mod account_store;
pub mod amount;
pub mod laws;
pub mod ledger;
pub mod stored_transaction;
pub mod transaction;
pub mod transaction_store;
pub mod transaction_type;

verus! {

} // verus!
