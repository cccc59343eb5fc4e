//! The gateway's configuration file.

pub mod driver;
pub mod file;
pub mod middleware;
