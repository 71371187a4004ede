//! Peer-to-peer networking core of a blockchain node: the peer registry, the
//! client connection counter, the connection lifecycle, the gossip and
//! propagation schedule and the trusted-peer retry policy, as verified
//! decision logic over plain values.

pub mod types;
pub mod config;
pub mod peers;
pub mod state;
pub mod connect;
pub mod schedule;
pub mod bootstrap;
pub mod start_up;
