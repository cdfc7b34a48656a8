//! A weighted-multisig price oracle hub.
//!
//! A fixed group of members submits candidate prices through proposals and
//! votes; every cast ballot counts toward a weighted threshold. Once enough
//! weight agrees, the submitted values are aggregated by integer median and
//! the result is turned into dispatch instructions for downstream hook
//! contracts. The host environment is expected to persist the state, resolve
//! member weights, and deliver the emitted instructions after commit.

pub mod contract;
pub mod deposit;
pub mod error;
pub mod expiration;
pub mod median;
pub mod msg;
pub mod order;
pub mod state;
pub mod threshold;
