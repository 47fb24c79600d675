//! Payloads of requests.

pub mod chat;
