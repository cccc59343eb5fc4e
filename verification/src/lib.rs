//! Verified core of the OpenShell gateway, supervisor and terminal interface.

pub mod appraisal;
pub mod attestation;
pub mod config;
pub mod encoding;
pub mod gateway;
pub mod ip;
pub mod supervisor;
pub mod text;
pub mod text_map;
pub mod tui;
