//! The core of a structured logging pipeline: severity levels and their
//! filters, the configuration and its text form, log lines with their
//! plain, colored and JSON renderings, and the decisions of the producers'
//! and the consumer's side of the queue. The library computes what is
//! logged and where; reading the clock, the queue itself and the writing
//! are left to the caller.

pub mod components;
pub mod config;
pub mod consumer;
pub mod filter;
pub mod json;
pub mod laws;
pub mod level;
pub mod logger;
pub mod reader;
pub mod record;
pub mod state;
pub mod text;
pub mod timestamp;
pub mod writer;
