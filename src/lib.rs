//! A filesystem mailbox: producers publish messages into a shared directory
//! atomically, and a single consumer scans, decodes and completes them.
//!
//! Every filesystem effect is performed by the caller; this library decides
//! which effect comes next and what its outcome means.

pub mod error;
pub mod kind;
pub mod names;
pub mod message;
pub mod config;
pub mod server;
pub mod ident;
pub mod publish;
pub mod argv;
pub mod matrix;
