//! The relay client.

pub mod client;
pub mod config;
pub mod link;
