//! A gossip agent's core: a timestamped key/value state with expiry and
//! conflict resolution, the decisions of the peer exchange loops, and the
//! membership table fed by a cluster watch.

pub mod agent;
pub mod config;
pub mod connection;
pub mod helpers;
pub mod state;
