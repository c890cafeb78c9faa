//! Relay addressing, signed reply paths, call envelopes and the decision
//! logic of the two event loops of a relay network node.

pub mod address;
pub mod bytes;
pub mod call;
pub mod client;
pub mod error;
pub mod identity;
pub mod service;
