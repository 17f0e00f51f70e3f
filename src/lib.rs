//! A community loan pool. Accounts propose loans funded from a shared pool,
//! bonded by a deposit; a bounded committee votes on them; an approved loan
//! is held in escrow and paid out milestone by milestone as a verifier
//! confirms each one.
use vstd::prelude::*;

pub mod chain;
pub mod committee;
pub mod escrow;
pub mod genesis;
pub mod laws;
pub mod ledger;
pub mod pool;
pub mod proposal;
pub mod types;
pub mod voting;

verus! {

} // verus!
