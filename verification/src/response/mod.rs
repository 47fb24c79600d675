//! Payloads of responses and broadcasts.

pub mod chat;
