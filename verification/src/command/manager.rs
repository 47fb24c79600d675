//! Numbering of requests.

use crate::command::codec::{decodes_to, refuses, request_frame, writable, BsonCommandCodec};
pub use crate::command::codec::{ReadError, WriteError};
use crate::command::BsonCommand;
use crate::frame::{decode_command, encode_command, scan_of, Scan};
use bson::Document;
use vstd::prelude::*;

verus! {

/// A codec and a counter: each command written gets the counter's value as
/// its request id, and the counter moves on by one. It stops at `i32::MAX`:
/// ids are never used twice.
#[derive(Debug)]
pub struct BsonCommandManager<S> {
    current_id: i32,
    codec: BsonCommandCodec<S>,
}

impl<S> BsonCommandManager<S> {
    /// The id that the next command written will get.
    pub closed spec fn next_id(&self) -> i32 {
        self.current_id
    }

    /// The codec inside.
    pub closed spec fn framing(&self) -> BsonCommandCodec<S> {
        self.codec
    }

    /// A manager around `stream`. The first id is 0.
    pub fn new(stream: S) -> (manager: Self)
        ensures
            manager.next_id() == 0,
            manager.framing().transport() == stream,
            manager.framing().inbound() == Seq::<u8>::empty(),
            manager.framing().outbound() == Seq::<u8>::empty(),
    {
        Self { current_id: 0, codec: BsonCommandCodec::new(stream) }
    }

    pub fn codec(&self) -> (codec: &BsonCommandCodec<S>)
        ensures
            *codec == self.framing(),
    {
        &self.codec
    }

    /// The codec, to feed or to flush. The counter stays as it is.
    pub fn codec_mut(&mut self) -> (codec: &mut BsonCommandCodec<S>)
        ensures
            *codec == old(self).framing(),
            final(self).framing() == *final(codec),
            final(self).next_id() == old(self).next_id(),
    {
        &mut self.codec
    }

    pub fn stream(&self) -> (stream: &S)
        ensures
            *stream == self.framing().transport(),
    {
        self.codec.stream()
    }

    /// The transport, to read from or write to. Counter and buffers stay as
    /// they are.
    pub fn stream_mut(&mut self) -> (stream: &mut S)
        ensures
            *stream == old(self).framing().transport(),
            final(self).framing().transport() == *final(stream),
            final(self).framing().inbound() == old(self).framing().inbound(),
            final(self).framing().outbound() == old(self).framing().outbound(),
            final(self).next_id() == old(self).next_id(),
    {
        self.codec.stream_mut()
    }

    pub fn current_id(&self) -> (id: i32)
        ensures
            id == self.next_id(),
    {
        self.current_id
    }

    /// Gives up the transport. What the buffers hold is lost.
    pub fn into_inner(self) -> (stream: S)
        ensures
            stream == self.framing().transport(),
    {
        self.codec.into_inner()
    }

    /// Writes `command` under the next id and returns that id. Where no id
    /// is left, and for a command that has no frame, no id is used up and the
    /// send buffer stays as it was.
    pub fn write(&mut self, command: &BsonCommand<Document>) -> (written: Result<i32, WriteError>)
        ensures
            final(self).framing().transport() == old(self).framing().transport(),
            final(self).framing().inbound() == old(self).framing().inbound(),
            match written {
                Ok(id) => {
                    &&& old(self).next_id() < i32::MAX
                    &&& writable(*command)
                    &&& id == old(self).next_id()
                    &&& final(self).next_id() == id + 1
                    &&& final(self).framing().outbound() == old(self).framing().outbound()
                        + encode_command(request_frame(id, *command))
                },
                Err(WriteError::Exhausted) => {
                    &&& old(self).next_id() == i32::MAX
                    &&& final(self).next_id() == old(self).next_id()
                    &&& final(self).framing().outbound() == old(self).framing().outbound()
                },
                Err(WriteError::Encode(error)) => {
                    &&& old(self).next_id() < i32::MAX
                    &&& refuses(error, *command)
                    &&& final(self).next_id() == old(self).next_id()
                    &&& final(self).framing().outbound() == old(self).framing().outbound()
                },
                Err(WriteError::Codec(_)) => false,
            },
    {
        let request_id = self.current_id;
        if request_id == i32::MAX {
            return Err(WriteError::Exhausted);
        }
        match self.codec.write(request_id, command) {
            Ok(()) => {
                self.current_id = request_id + 1;
                Ok(request_id)
            },
            Err(error) => Err(error),
        }
    }

    /// Takes the next frame out of the receive buffer, if a whole one is
    /// there, and reads it as a command: the id it carries, and the command.
    pub fn read(&mut self) -> (read: Result<Option<(i32, BsonCommand<Document>)>, ReadError>)
        ensures
            final(self).next_id() == old(self).next_id(),
            final(self).framing().transport() == old(self).framing().transport(),
            final(self).framing().outbound() == old(self).framing().outbound(),
            match scan_of(old(self).framing().inbound()) {
                Scan::Needs(_) => {
                    &&& read matches Ok(None)
                    &&& final(self).framing().inbound() == old(self).framing().inbound()
                },
                Scan::Oversized(announced) => {
                    &&& read matches Err(ReadError::OversizedBody(size))
                    &&& size == announced
                    &&& final(self).framing().inbound() == old(self).framing().inbound()
                },
                Scan::Whole(whole) => {
                    &&& final(self).framing().inbound() == old(self).framing().inbound().skip(
                        whole as int,
                    )
                    &&& match read {
                        Ok(Some((read_id, command))) => decodes_to(
                            decode_command(old(self).framing().inbound()),
                            Ok(crate::command::ReadBsonCommand { read_id, command }),
                        ),
                        Ok(None) => false,
                        Err(error) => decodes_to(
                            decode_command(old(self).framing().inbound()),
                            Err(error),
                        ),
                    }
                },
            },
    {
        match self.codec.read() {
            Ok(Some(read)) => Ok(Some((read.read_id, read.command))),
            Ok(None) => Ok(None),
            Err(error) => Err(error),
        }
    }
}

} // verus!
