//! Coordination logic between an on-chain task marketplace and an off-chain
//! proving cluster: segment status tracking, task dispatch, proof aggregation,
//! chain-event batching and transaction preparation.

pub mod aggregate;
pub mod chain;
pub mod codec;
pub mod dispatch;
pub mod events;
pub mod hex_text;
pub mod monitor;
pub mod queues;
pub mod signer;
pub mod status;
