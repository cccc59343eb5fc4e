//! The supervisor's session with the gateway, and the relays that it opens in a sandbox.

pub mod bridge;
pub mod event;
pub mod relay;
pub mod session;
