//! The verified core of a small file-serving daemon: the bounded worker pool
//! and its shutdown protocol, the accept-loop driver, request routing and
//! response framing, configuration values and page lookup.

pub mod config;
pub mod decimal;
pub mod http;
pub mod message;
pub mod pool_state;
pub mod resources;
pub mod server;
pub mod threadpool;
pub mod worker;
