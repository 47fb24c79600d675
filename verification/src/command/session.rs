//! Answers to their requests, everything else to the broadcast queue.
//!
//! A session numbers the requests it sends and remembers which of them wait
//! for an answer. Each frame that arrives either answers a waiting request
//! or is a broadcast. The session does no I/O: the caller writes what
//! [`BsonCommandSession::flush`] hands out, passes what it reads to
//! [`BsonCommandSession::feed`], and reports a failed transport with
//! [`BsonCommandSession::fail`].

use crate::command::codec::{
    decode_bson_command, decodes_to, refuses, writable, ReadError, StreamError, WriteError,
};
use crate::command::manager::BsonCommandManager;
use crate::command::model::{Outcome, SessionView};
use crate::command::pending::{
    entries, new_table, table_get, table_insert, table_is_empty, table_shift_remove, Pending,
    PendingView,
};
use crate::command::{BsonCommand, ReadBsonCommand};
use crate::frame::{scan_of, Command, Scan};
use bson::Document;
use indexmap::IndexMap;
use std::collections::VecDeque;
use vstd::prelude::*;

verus! {

/// Whether `answer` is what a caller gets when claiming the answer to
/// request `id` ends in `outcome`. A frame that is the caller's is read as a
/// command; where that fails, the caller gets the complaint.
pub open spec fn answers(
    outcome: Outcome,
    id: i32,
    answer: Result<Option<BsonCommand<Document>>, ReadError>,
) -> bool {
    match outcome {
        Outcome::Closed(error) => answer matches Err(ReadError::Stream(e)) && e == error,
        Outcome::NotRequested => answer matches Err(ReadError::NotRequested(i)) && i == id,
        Outcome::Starved => answer matches Ok(None),
        Outcome::Oversized(announced) => answer matches Err(ReadError::OversizedBody(size))
            && size == announced,
        Outcome::Rejected(frame) => answer matches Err(ReadError::Corrupted(rejected))
            && rejected@ == frame,
        Outcome::Frame(frame) => match answer {
            Ok(Some(command)) => decodes_to(
                frame,
                Ok(ReadBsonCommand { read_id: frame.header.id, command }),
            ),
            Ok(None) => false,
            Err(error) => decodes_to(frame, Err(error)),
        },
    }
}

/// Whether `read` is what a caller gets when taking the next broadcast ends
/// in `outcome`.
pub open spec fn announces(
    outcome: Outcome,
    read: Result<Option<ReadBsonCommand<Document>>, ReadError>,
) -> bool {
    match outcome {
        Outcome::Closed(error) => read matches Err(ReadError::Stream(e)) && e == error,
        Outcome::NotRequested => false,
        Outcome::Starved => read matches Ok(None),
        Outcome::Oversized(announced) => read matches Err(ReadError::OversizedBody(size)) && size
            == announced,
        Outcome::Rejected(frame) => read matches Err(ReadError::Corrupted(rejected)) && rejected@
            == frame,
        Outcome::Frame(frame) => match read {
            Ok(Some(command)) => decodes_to(frame, Ok(command)),
            Ok(None) => false,
            Err(error) => decodes_to(frame, Err(error)),
        },
    }
}

/// A session over the transport `S`, which it only keeps.
#[derive(Debug)]
pub struct BsonCommandSession<S> {
    manager: BsonCommandManager<S>,
    pending: IndexMap<i32, Pending>,
    broadcasts: VecDeque<Command>,
    closed: Option<StreamError>,
}

impl<S> View for BsonCommandSession<S> {
    type V = SessionView;

    closed spec fn view(&self) -> SessionView {
        SessionView {
            next_id: self.manager.next_id(),
            pending: Map::new(
                |id: i32| entries(self.pending).dom().contains(id),
                |id: i32| entries(self.pending)[id]@,
            ),
            broadcasts: Seq::new(self.broadcasts@.len(), |i: int| self.broadcasts@[i]@),
            inbound: self.manager.framing().inbound(),
            outbound: self.manager.framing().outbound(),
            closed: self.closed,
        }
    }
}

impl<S> BsonCommandSession<S> {
    /// The transport.
    pub closed spec fn transport(&self) -> S {
        self.manager.framing().transport()
    }

    /// A session around `stream`: nothing sent, nothing received, nothing
    /// waiting. The first request will get the id 0.
    pub fn new(stream: S) -> (session: Self)
        ensures
            session@ == SessionView::fresh(),
            session@.wf(),
            session.transport() == stream,
    {
        let session = Self {
            manager: BsonCommandManager::new(stream),
            pending: new_table(),
            broadcasts: VecDeque::new(),
            closed: None,
        };
        assert(session@.pending =~= Map::empty());
        assert(session@.broadcasts =~= Seq::empty());
        session
    }

    /// The id that the next request will get.
    pub fn current_id(&self) -> (id: i32)
        ensures
            id == self@.next_id,
    {
        self.manager.current_id()
    }

    /// The failure that closed the session, if one did.
    pub fn closed(&self) -> (closed: Option<StreamError>)
        ensures
            closed == self@.closed,
    {
        self.closed
    }

    pub fn stream(&self) -> (stream: &S)
        ensures
            *stream == self.transport(),
    {
        self.manager.stream()
    }

    /// The transport, to read from or write to. The session stays as it is.
    pub fn stream_mut(&mut self) -> (stream: &mut S)
        ensures
            *stream == old(self).transport(),
            final(self).transport() == *final(stream),
            final(self)@ == old(self)@,
    {
        self.manager.stream_mut()
    }

    /// Gives the transport back if no request waits. A session with a waiting
    /// request is handed back instead.
    pub fn into_inner(self) -> (stream: Result<S, Self>)
        ensures
            match stream {
                Ok(stream) => self@.pending.dom() == Set::<i32>::empty() && stream
                    == self.transport(),
                Err(session) => self@.pending.dom() != Set::<i32>::empty() && session == self,
            },
    {
        if table_is_empty(&self.pending) {
            assert(self@.pending.dom() =~= Set::<i32>::empty());
            Ok(self.manager.into_inner())
        } else {
            assert(self@.pending.dom() =~= entries(self.pending).dom());
            Err(self)
        }
    }
}

impl<S> BsonCommandSession<S> {
    /// Sends `command` as the next request: its frame goes to the end of
    /// what is to be sent, and the request waits for its answer under the id
    /// returned. On a closed session, where no id is left, and for a command
    /// that has no frame, nothing changes.
    pub fn request(&mut self, command: &BsonCommand<Document>) -> (id: Result<i32, WriteError>)
        requires
            old(self)@.wf(),
        ensures
            final(self)@.wf(),
            final(self).transport() == old(self).transport(),
            match id {
                Ok(id) => {
                    &&& old(self)@.closed is None
                    &&& old(self)@.next_id < i32::MAX
                    &&& writable(*command)
                    &&& id == old(self)@.next_id
                    &&& final(self)@ == old(self)@.request(*command)
                },
                Err(WriteError::Codec(error)) => {
                    &&& old(self)@.closed == Some(error)
                    &&& final(self)@ == old(self)@
                },
                Err(WriteError::Exhausted) => {
                    &&& old(self)@.closed is None
                    &&& old(self)@.next_id == i32::MAX
                    &&& final(self)@ == old(self)@
                },
                Err(WriteError::Encode(error)) => {
                    &&& old(self)@.closed is None
                    &&& old(self)@.next_id < i32::MAX
                    &&& refuses(error, *command)
                    &&& final(self)@ == old(self)@
                },
            },
    {
        if let Some(error) = self.closed {
            return Err(WriteError::Codec(error));
        }
        match self.manager.write(command) {
            Ok(id) => {
                table_insert(&mut self.pending, id, Pending::Awaited);
                assert(self@.pending =~= old(self)@.pending.insert(id, PendingView::Awaited));
                Ok(id)
            },
            Err(error) => Err(error),
        }
    }
}

impl<S> BsonCommandSession<S> {
    /// Where request `id` stands: `None` if it does not wait, otherwise
    /// whether its answer has been read.
    fn standing(&self, id: i32) -> (delivered: Option<bool>)
        ensures
            delivered is Some <==> self@.pending.dom().contains(id),
            delivered is Some ==> delivered->0 == (self@.pending[id] is Delivered),
    {
        match table_get(&self.pending, id) {
            None => None,
            Some(Pending::Awaited) => Some(false),
            Some(Pending::Delivered(_)) => Some(true),
        }
    }

    /// Puts `frame`, whose status is 0, where it belongs.
    fn route(&mut self, frame: Command)
        requires
            old(self)@.wf(),
            frame@.header.status == 0,
        ensures
            final(self)@.wf(),
            final(self).transport() == old(self).transport(),
            final(self)@ == old(self)@.route(frame@),
    {
        let id = frame.header.id;
        match self.standing(id) {
            Some(false) => {
                let ghost delivered = PendingView::Delivered(frame@);
                table_insert(&mut self.pending, id, Pending::Delivered(frame));
                assert(self@.pending =~= old(self)@.pending.insert(id, delivered));
            },
            _ => {
                let ghost queued = frame@;
                self.broadcasts.push_back(frame);
                assert(self@.broadcasts =~= old(self)@.broadcasts.push(queued));
            },
        }
    }

    /// Moves one frame from the receive buffer to where it belongs, if a
    /// whole one is there. `Ok(true)` says that a frame was routed,
    /// `Ok(false)` that more bytes are needed.
    fn pump(&mut self) -> (routed: Result<bool, ReadError>)
        requires
            old(self)@.wf(),
        ensures
            final(self)@.wf(),
            final(self).transport() == old(self).transport(),
            final(self)@ == old(self)@.pump().0,
            match old(self)@.pump().1 {
                None => routed matches Ok(true),
                Some(Outcome::Starved) => routed matches Ok(false),
                Some(Outcome::Oversized(announced)) => routed matches Err(
                    ReadError::OversizedBody(size),
                ) && size == announced,
                Some(Outcome::Rejected(frame)) => routed matches Err(
                    ReadError::Corrupted(rejected),
                ) && rejected@ == frame,
                Some(_) => false,
            },
    {
        match self.manager.codec_mut().read_frame() {
            Ok(None) => Ok(false),
            Ok(Some(frame)) => {
                if frame.header.status != 0 {
                    Err(ReadError::Corrupted(frame))
                } else {
                    self.route(frame);
                    Ok(true)
                }
            },
            Err(error) => Err(error),
        }
    }

    /// Claims the answer to request `id`: `Ok(Some(..))` with the command if
    /// the answer has been read or can be read from what was received,
    /// `Ok(None)` if more bytes are needed first. Frames that come up on the
    /// way are routed. The answer leaves the session even where reading it as
    /// a command fails.
    pub fn response(&mut self, id: i32) -> (answer: Result<Option<BsonCommand<Document>>, ReadError>)
        requires
            old(self)@.wf(),
        ensures
            final(self)@.wf(),
            final(self).transport() == old(self).transport(),
            final(self)@ == old(self)@.respond(id).0,
            answers(old(self)@.respond(id).1, id, answer),
    {
        if let Some(error) = self.closed {
            return Err(ReadError::Stream(error));
        }
        loop
            invariant
                self@.wf(),
                self@.closed is None,
                self.transport() == old(self).transport(),
                self@.respond(id) == old(self)@.respond(id),
            decreases self@.inbound.len(),
        {
            match self.standing(id) {
                None => {
                    return Err(ReadError::NotRequested(id));
                },
                Some(true) => {
                    let ghost before = self@;
                    match table_shift_remove(&mut self.pending, id) {
                        Some(Pending::Delivered(frame)) => {
                            assert(self@.pending =~= before.pending.remove(id));
                            return match decode_bson_command(frame) {
                                Ok(read) => Ok(Some(read.command)),
                                Err(error) => Err(error),
                            };
                        },
                        _ => {
                            return Err(ReadError::NotRequested(id));
                        },
                    }
                },
                Some(false) => {},
            }
            match self.pump() {
                Ok(true) => {},
                Ok(false) => {
                    return Ok(None);
                },
                Err(error) => {
                    return Err(error);
                },
            }
        }
    }

    /// Takes the next broadcast: `Ok(Some(..))` with the oldest one that
    /// has been read or can be read from what was received, `Ok(None)` if
    /// more bytes are needed first. Answers that come up on the way are
    /// routed to their requests. The broadcast leaves the session even where
    /// reading it as a command fails.
    pub fn read(&mut self) -> (read: Result<Option<ReadBsonCommand<Document>>, ReadError>)
        requires
            old(self)@.wf(),
        ensures
            final(self)@.wf(),
            final(self).transport() == old(self).transport(),
            final(self)@ == old(self)@.next_broadcast().0,
            announces(old(self)@.next_broadcast().1, read),
    {
        if let Some(error) = self.closed {
            return Err(ReadError::Stream(error));
        }
        loop
            invariant
                self@.wf(),
                self@.closed is None,
                self.transport() == old(self).transport(),
                self@.next_broadcast() == old(self)@.next_broadcast(),
            decreases self@.inbound.len(),
        {
            let ghost before = self@;
            match self.broadcasts.pop_front() {
                Some(frame) => {
                    assert(self@.broadcasts =~= before.broadcasts.drop_first());
                    assert(frame@ == before.broadcasts[0]);
                    return match decode_bson_command(frame) {
                        Ok(read) => Ok(Some(read)),
                        Err(error) => Err(error),
                    };
                },
                None => {
                    assert(self@ == before);
                },
            }
            match self.pump() {
                Ok(true) => {},
                Ok(false) => {
                    return Ok(None);
                },
                Err(error) => {
                    return Err(error);
                },
            }
        }
    }

    /// Gives up request `id`: it no longer waits, and an answer that had been
    /// read for it is dropped. An answer that arrives later is a broadcast.
    /// Returns whether the request was waiting.
    pub fn cancel(&mut self, id: i32) -> (waiting: bool)
        requires
            old(self)@.wf(),
        ensures
            final(self)@.wf(),
            final(self).transport() == old(self).transport(),
            final(self)@ == old(self)@.cancel(id),
            waiting == old(self)@.pending.dom().contains(id),
    {
        let removed = table_shift_remove(&mut self.pending, id);
        assert(self@.pending =~= old(self)@.pending.remove(id));
        removed.is_some()
    }

    /// Closes the session after the transport failed with `error`. From now
    /// on every request, claim and read fails with that error; no request
    /// waits any longer, and what was not yet sent is dropped. On a session
    /// that is closed already this does nothing.
    pub fn fail(&mut self, error: StreamError)
        requires
            old(self)@.wf(),
        ensures
            final(self)@.wf(),
            final(self).transport() == old(self).transport(),
            final(self)@ == old(self)@.fail(error),
    {
        if self.closed.is_none() {
            self.closed = Some(error);
            self.pending = new_table();
            let _ = self.manager.codec_mut().flush();
            assert(self@.pending =~= Map::empty());
        }
    }

    /// Takes in bytes that the transport delivered.
    pub fn feed(&mut self, bytes: &[u8])
        ensures
            final(self).transport() == old(self).transport(),
            final(self)@ == old(self)@.fed(bytes@),
    {
        self.manager.codec_mut().feed(bytes);
    }

    /// Hands out what is to be sent, in the order of the requests, and
    /// keeps none of it.
    pub fn flush(&mut self) -> (bytes: Vec<u8>)
        ensures
            bytes@ == old(self)@.outbound,
            final(self).transport() == old(self).transport(),
            final(self)@ == (SessionView { outbound: Seq::empty(), ..old(self)@ }),
    {
        self.manager.codec_mut().flush()
    }

    /// How many bytes to read from the transport next: what the next frame
    /// still needs, or 0 if the session is closed, a whole frame is ready or
    /// the next frame is refused for its length.
    pub fn wanted(&self) -> (missing: usize)
        ensures
            missing == if self@.closed is Some {
                0
            } else {
                match scan_of(self@.inbound) {
                    Scan::Needs(missing) => missing,
                    _ => 0,
                }
            },
    {
        if self.closed.is_some() {
            0
        } else {
            self.manager.codec().wanted()
        }
    }
}

} // verus!
