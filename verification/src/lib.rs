//! Threshold voting on proof-verification tasks by a rotating set of authorities.

pub mod codec;
pub mod coordinator;
pub mod copying;
pub mod crypto;
pub mod gate;
pub mod identity;
pub mod laws;
pub mod literals;
pub mod message;
pub mod model;
pub mod registry;
pub mod round;
pub mod sorting;
pub mod threshold;
pub mod types;
