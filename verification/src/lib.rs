//! Client-side transaction filtering for a lightweight peer: a seeded
//! probabilistic membership filter, the state that owns it, the bookkeeping of
//! the peers it was sent to, and the coordinator that turns network events and
//! user commands into notifications and outbound commands.

pub mod error;
pub mod hash;
pub mod filter;
pub mod item;
pub mod state;
pub mod peers;
pub mod coordinator;
