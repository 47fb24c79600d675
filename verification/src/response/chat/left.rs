use vstd::prelude::*;

verus! {

/// Broadcast: the client left a chatroom.
#[derive(Debug, Clone)]
pub struct Left {
    /// Chatroom id; `chatId` on the wire.
    pub chat_id: i64,
    /// Last token id; `lastTokenId` on the wire.
    pub last_token_id: i64,
}

} // verus!
