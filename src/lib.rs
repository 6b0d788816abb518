use vstd::prelude::*;

pub mod admin;
pub mod config;
pub mod crypto;
pub mod dedup;
pub mod fanout;
pub mod heartbeat;
pub mod kinds;
pub mod payload;
pub mod relay_pool;
pub mod router;
pub mod seal;
pub mod settlement;

verus! {

} // verus!
