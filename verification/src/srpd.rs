//! The relay server.

pub mod client_config;
pub mod config;
pub mod dashboard;
pub mod metrics;
pub mod readback;
pub mod server;
pub mod udp;
