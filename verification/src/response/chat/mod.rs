//! Responses and broadcasts of the chat service.

pub mod get_trailer;
pub mod left;

pub use get_trailer::GetTrailerRes;
pub use left::Left;
