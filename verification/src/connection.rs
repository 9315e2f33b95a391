//! The connection layer: the exchange of state with other peers.

pub mod default;
pub mod peer_provider;
