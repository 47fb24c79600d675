//! What a session is and what each step does to it, as mathematics.
//!
//! [`BsonCommandSession`](crate::command::session::BsonCommandSession) is
//! held to this model: each of its functions says which step of the model it
//! takes.

use crate::command::codec::{request_frame, StreamError};
use crate::command::pending::PendingView;
use crate::command::BsonCommand;
use crate::frame::{
    decode_command, encodable, encode_command, scan_of, CommandView, Scan, MAX_DATA_SIZE,
};
use bson::Document;
use vstd::prelude::*;

verus! {

/// A session as a mathematical value.
pub struct SessionView {
    /// The id that the next request will get.
    pub next_id: i32,
    /// The requests that wait, by id.
    pub pending: Map<i32, PendingView>,
    /// Broadcasts read and not yet taken, oldest first.
    pub broadcasts: Seq<CommandView>,
    /// Bytes received and not yet read as frames.
    pub inbound: Seq<u8>,
    /// Bytes to send and not yet handed out.
    pub outbound: Seq<u8>,
    /// The failure that closed the session, if one did.
    pub closed: Option<StreamError>,
}

/// How an attempt to take something from a session ends.
pub enum Outcome {
    /// The session is closed.
    Closed(StreamError),
    /// The id asked for is not that of a waiting request.
    NotRequested,
    /// Nothing is there yet: more bytes are needed.
    Starved,
    /// The next frame announces a body of so many bytes and is refused.
    Oversized(u32),
    /// A frame with a status other than 0 came up; it went nowhere.
    Rejected(CommandView),
    /// This frame is the caller's.
    Frame(CommandView),
}

impl SessionView {
    /// What holds of every session: ids of waiting requests were given out
    /// before, an answer is stored under its own id, and nothing stored has a
    /// status other than 0.
    pub open spec fn wf(self) -> bool {
        &&& 0 <= self.next_id
        &&& forall|id: i32| #[trigger]
            self.pending.dom().contains(id) ==> {
                &&& 0 <= id < self.next_id
                &&& self.pending[id] matches PendingView::Delivered(frame) ==> frame.header.id
                    == id && frame.header.status == 0
            }
        &&& forall|i: int|
            0 <= i < self.broadcasts.len() ==> (#[trigger] self.broadcasts[i]).header.status == 0
    }

    /// A session that has done nothing yet.
    pub open spec fn fresh() -> SessionView {
        SessionView {
            next_id: 0,
            pending: Map::empty(),
            broadcasts: Seq::empty(),
            inbound: Seq::empty(),
            outbound: Seq::empty(),
            closed: None,
        }
    }

    /// Whether the request `id` waits and its answer has not been read.
    pub open spec fn awaits(self, id: i32) -> bool {
        self.pending.dom().contains(id) && self.pending[id] is Awaited
    }

    /// After the request of `command`: it has the next id, its frame is at
    /// the end of what is to be sent, and it waits for its answer.
    pub open spec fn request(self, command: BsonCommand<Document>) -> SessionView {
        SessionView {
            next_id: (self.next_id + 1) as i32,
            pending: self.pending.insert(self.next_id, PendingView::Awaited),
            outbound: self.outbound + encode_command(request_frame(self.next_id, command)),
            ..self
        }
    }

    /// After `frame` has been routed: it is the answer of the request with
    /// its id if that request waits and has none yet; otherwise it is the
    /// newest broadcast.
    pub open spec fn route(self, frame: CommandView) -> SessionView {
        if self.awaits(frame.header.id) {
            SessionView {
                pending: self.pending.insert(frame.header.id, PendingView::Delivered(frame)),
                ..self
            }
        } else {
            SessionView { broadcasts: self.broadcasts.push(frame), ..self }
        }
    }

    /// One attempt to move a frame from the receive buffer to where it
    /// belongs. A whole frame leaves the buffer; it is routed if its status
    /// is 0 and given back as rejected if not. The second part is `None`
    /// where a frame was routed, and says what stopped the attempt otherwise.
    pub open spec fn pump(self) -> (SessionView, Option<Outcome>) {
        match scan_of(self.inbound) {
            Scan::Needs(_) => (self, Some(Outcome::Starved)),
            Scan::Oversized(announced) => (self, Some(Outcome::Oversized(announced))),
            Scan::Whole(whole) => {
                let frame = decode_command(self.inbound);
                let rest = SessionView { inbound: self.inbound.skip(whole as int), ..self };
                if frame.header.status != 0 {
                    (rest, Some(Outcome::Rejected(frame)))
                } else {
                    (rest.route(frame), None)
                }
            },
        }
    }

    /// Claiming the answer to request `id`: if it has been read it leaves
    /// the table; if not, frames are routed one by one until it has been
    /// read or something stops the reading.
    pub open spec fn respond(self, id: i32) -> (SessionView, Outcome)
        decreases self.inbound.len(),
    {
        if self.closed is Some {
            (self, Outcome::Closed(self.closed.unwrap()))
        } else if !self.pending.dom().contains(id) {
            (self, Outcome::NotRequested)
        } else if let PendingView::Delivered(frame) = self.pending[id] {
            (SessionView { pending: self.pending.remove(id), ..self }, Outcome::Frame(frame))
        } else {
            let (next, stop) = self.pump();
            match stop {
                Some(outcome) => (next, outcome),
                None => next.respond(id),
            }
        }
    }

    /// Taking the next broadcast: the oldest one in the queue if there is
    /// one; if not, frames are routed one by one until there is one or
    /// something stops the reading.
    pub open spec fn next_broadcast(self) -> (SessionView, Outcome)
        decreases self.inbound.len(),
    {
        if self.closed is Some {
            (self, Outcome::Closed(self.closed.unwrap()))
        } else if self.broadcasts.len() > 0 {
            (
                SessionView { broadcasts: self.broadcasts.drop_first(), ..self },
                Outcome::Frame(self.broadcasts[0]),
            )
        } else {
            let (next, stop) = self.pump();
            match stop {
                Some(outcome) => (next, outcome),
                None => next.next_broadcast(),
            }
        }
    }

    /// After request `id` has been given up: it no longer waits, and an
    /// answer that had been read for it is gone.
    pub open spec fn cancel(self, id: i32) -> SessionView {
        SessionView { pending: self.pending.remove(id), ..self }
    }

    /// After the transport has failed with `error`: the session is closed, no
    /// request waits any longer and nothing more is to be sent. A session
    /// that was closed before stays as it was.
    pub open spec fn fail(self, error: StreamError) -> SessionView {
        if self.closed is Some {
            self
        } else {
            SessionView {
                closed: Some(error),
                pending: Map::empty(),
                outbound: Seq::empty(),
                ..self
            }
        }
    }

    /// After `frames` have been routed, one after the other.
    pub open spec fn routed(self, frames: Seq<CommandView>) -> SessionView
        decreases frames.len(),
    {
        if frames.len() == 0 {
            self
        } else {
            self.route(frames[0]).routed(frames.drop_first())
        }
    }

    /// The session with `more` behind what it has received.
    pub open spec fn fed(self, more: Seq<u8>) -> SessionView {
        SessionView { inbound: self.inbound + more, ..self }
    }
}

/// The session after the requests of `commands`, in their order, on the
/// session `start`.
pub open spec fn after_requests(
    start: SessionView,
    commands: Seq<BsonCommand<Document>>,
) -> SessionView
    decreases commands.len(),
{
    if commands.len() == 0 {
        start
    } else {
        after_requests(start, commands.drop_last()).request(commands.last())
    }
}

/// What the requests of `commands` put on the wire when the first of them
/// gets the id `first`: their frames, in their order, with ids that count up
/// from `first`.
pub open spec fn frames_from(first: int, commands: Seq<BsonCommand<Document>>) -> Seq<u8>
    decreases commands.len(),
{
    if commands.len() == 0 {
        Seq::empty()
    } else {
        frames_from(first, commands.drop_last()) + encode_command(
            request_frame((first + commands.len() - 1) as i32, commands.last()),
        )
    }
}

/// `frames` on the wire: the bytes of each, one after the other.
pub open spec fn wire(frames: Seq<CommandView>) -> Seq<u8>
    decreases frames.len(),
{
    if frames.len() == 0 {
        Seq::empty()
    } else {
        encode_command(frames[0]) + wire(frames.drop_first())
    }
}

/// Whether `frame` is one that a session routes when it arrives: it can be
/// written, its body is within the cap, and its status is 0.
pub open spec fn routable(frame: CommandView) -> bool {
    encodable(frame) && frame.data.len() <= MAX_DATA_SIZE && frame.header.status == 0
}

} // verus!
