//! Core of a database-backed HTTP API server: settings resolution, a bounded
//! pool of database connections with checkout and checkin, the post-processing
//! steps applied to every response, and the server value that owns them.

pub mod config;
pub mod middleware;
pub mod pool;
pub mod server;
