//! Request statistics for a reverse proxy: the per-host aggregator and the
//! rules of the collector it reports to.

pub mod common;
pub mod config;
pub mod deploy;
pub mod error;
pub mod ingest;
pub mod message;
pub mod scheduler;
pub mod site;
pub mod stats;
pub mod table;
pub mod text;
pub mod user;
pub mod utils;
pub mod verification;
