//! Pieces shared by all the servers: configuration, errors and the cache's
//! decisions.

pub mod cache_flow;
pub mod config;
pub mod error;
