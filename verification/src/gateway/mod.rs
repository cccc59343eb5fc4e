//! The gateway's front: which requests are let in, as whom, and where they go.

pub mod admission;
pub mod auth;
pub mod headers;
pub mod intercept;
pub mod principal;
pub mod rate_limit;
pub mod routing;
pub mod service;
pub mod status;
