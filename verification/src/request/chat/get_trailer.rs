use vstd::prelude::*;

verus! {

/// Request the media download server.
#[derive(Debug, Clone)]
pub struct GetTrailerReq {
    /// Media key; `k` on the wire.
    pub key: String,
    /// Chat type; `t` on the wire.
    pub chat_type: i32,
}

} // verus!
