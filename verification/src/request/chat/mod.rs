//! Requests of the chat service.

pub mod chat_info;
pub mod get_trailer;

pub use chat_info::ChatInfoReq;
pub use get_trailer::GetTrailerReq;
