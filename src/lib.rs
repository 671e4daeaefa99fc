//! Settlement arbiter for two-party payment channels: channel identity,
//! deposit accounting, dual-signed state registration with a challenge
//! window, settlement against deposits and signature-authorised withdrawal.

pub mod contract;
pub mod crypto;
pub mod error;
pub mod msg;
pub mod state;
pub mod types;
