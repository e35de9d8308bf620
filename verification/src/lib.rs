//! The core of a multi-tenant websocket server: what is admitted, who hears what, and what
//! is answered.
#![allow(unused_imports)]

pub mod text;
pub mod bucket;
pub mod metrics;
pub mod config;
pub mod json;
pub mod members;
pub mod msgpack;
pub mod protocol;
pub mod auth;
pub mod channel;
pub mod ip_limiter;
pub mod state;
pub mod topic;
pub mod admission;
pub mod server;
pub mod session;
pub mod tasks;
pub mod api;
