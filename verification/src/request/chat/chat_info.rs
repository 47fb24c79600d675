use vstd::prelude::*;

verus! {

/// Request chatroom info.
#[derive(Debug, Clone)]
pub struct ChatInfoReq {
    /// Chatroom id; `chatId` on the wire.
    pub chat_id: i64,
}

} // verus!
