//! Commands to and from bytes.
//!
//! The codec holds the transport without using it. What is to be sent
//! collects in a buffer that [`BsonCommandCodec::flush`] hands out; what was
//! received comes in through [`BsonCommandCodec::feed`] and leaves as whole
//! frames.

use crate::command::{BsonCommand, ReadBsonCommand};
use crate::document::{
    announces_more, bytes_of_document, decode_document, document_of_bytes, write_document,
    DecodeError,
};
use crate::frame::{
    decode_command, encode_command, method_field, method_name, scan, scan_of, Command,
    CommandView, Header, HeaderView, Scan,
};
use crate::nesting::nests_within;
use bson::Document;
use vstd::prelude::*;
use vstd::utf8::*;

verus! {

/// `std::io::ErrorKind`, carried through unread.
#[verifier::external_type_specification]
#[verifier::external_body]
pub struct ExErrorKind(std::io::ErrorKind);

/// Why the transport stopped working. The caller, who does the reading and
/// writing, reports it.
#[derive(Clone, Copy, Debug, PartialEq, Eq)]
pub enum StreamError {
    /// A read or a write failed in this way.
    Io(std::io::ErrorKind),
}

/// Why a command has no frame.
#[derive(Debug)]
pub enum EncodeError {
    /// The method name is longer than 11 bytes.
    MethodTooLong,
    /// The payload has no BSON form.
    Document(bson::ser::Error),
    /// The payload's BSON form is longer than a frame can say.
    BodyTooLong,
}

/// Why a request was not sent.
#[derive(Debug)]
pub enum WriteError {
    /// The transport failed.
    Codec(StreamError),
    /// The command could not be put into a frame. Nothing was written.
    Encode(EncodeError),
    /// Every request id has been given out: the counter stands at
    /// `i32::MAX` and does not wrap. Nothing was written.
    Exhausted,
}

/// Why nothing was read.
#[derive(Debug)]
pub enum ReadError {
    /// The transport failed.
    Stream(StreamError),
    /// The frame's status is not 0: the request was rejected.
    Corrupted(Command),
    /// The frame's method name is not UTF-8.
    InvalidMethod(std::string::FromUtf8Error),
    /// The frame's body is not a document.
    Decode(DecodeError),
    /// A header announces a body of so many bytes, more than
    /// [`MAX_DATA_SIZE`](crate::frame::MAX_DATA_SIZE).
    OversizedBody(u32),
    /// No request with this id is waiting for an answer.
    NotRequested(i32),
}

/// Whether `command` can be put into a frame: its method name fits the
/// method field, and its payload has a BSON form that fits a body.
pub open spec fn writable(command: BsonCommand<Document>) -> bool {
    &&& encode_utf8(command.method@).len() <= 11
    &&& bytes_of_document(command.data) is Some
    &&& bytes_of_document(command.data).unwrap().len() <= u32::MAX
}

/// Whether `error` is the reason why `command` has no frame: the first that
/// applies of a method name that is too long, a payload without a BSON form,
/// and a BSON form that is too long.
pub open spec fn refuses(error: EncodeError, command: BsonCommand<Document>) -> bool {
    match error {
        EncodeError::MethodTooLong => encode_utf8(command.method@).len() > 11,
        EncodeError::Document(_) => {
            &&& encode_utf8(command.method@).len() <= 11
            &&& bytes_of_document(command.data) is None
        },
        EncodeError::BodyTooLong => {
            &&& encode_utf8(command.method@).len() <= 11
            &&& bytes_of_document(command.data) is Some
            &&& bytes_of_document(command.data).unwrap().len() > u32::MAX
        },
    }
}

/// The frame that carries `command` as request `id`: status 0, the method
/// name padded with zero bytes, and the payload's BSON form as the body.
pub open spec fn request_frame(id: i32, command: BsonCommand<Document>) -> CommandView {
    CommandView {
        header: HeaderView {
            id,
            status: 0,
            method: method_field(encode_utf8(command.method@)),
            data_type: command.data_type,
        },
        data: bytes_of_document(command.data).unwrap(),
    }
}

/// Whether `decoded` is what reading `frame` as a command gives: the
/// rejected frame itself if its status is not 0; else a complaint about the
/// method name if that is not UTF-8; else one about the body if that
/// announces more than it holds, nests too deep or is not a document; else
/// the command, with the frame's id.
pub open spec fn decodes_to(
    frame: CommandView,
    decoded: Result<ReadBsonCommand<Document>, ReadError>,
) -> bool {
    if frame.header.status != 0 {
        decoded matches Err(ReadError::Corrupted(rejected)) && rejected@ == frame
    } else if !valid_utf8(method_name(frame.header.method)) {
        decoded matches Err(ReadError::InvalidMethod(_))
    } else if announces_more(frame.data) {
        decoded matches Err(ReadError::Decode(DecodeError::Truncated))
    } else if !nests_within(frame.data) {
        decoded matches Err(ReadError::Decode(DecodeError::TooDeep))
    } else {
        match document_of_bytes(frame.data) {
            None => decoded matches Err(ReadError::Decode(DecodeError::Document(_))),
            Some(document) => {
                &&& decoded matches Ok(read)
                &&& read.read_id == frame.header.id
                &&& read.command.method@ == decode_utf8(method_name(frame.header.method))
                &&& read.command.data_type == frame.header.data_type
                &&& read.command.data == document
            },
        }
    }
}

/// The frame for `command` as request `request_id`.
pub fn encode_bson_command(request_id: i32, command: &BsonCommand<Document>) -> (frame: Result<
    Command,
    EncodeError,
>)
    ensures
        match frame {
            Ok(frame) => writable(*command) && frame@ == request_frame(request_id, *command),
            Err(error) => refuses(error, *command),
        },
{
    let header = match Header::new(request_id, 0, command.method.as_str(), command.data_type) {
        Some(header) => header,
        None => {
            return Err(EncodeError::MethodTooLong);
        },
    };
    let data = match write_document(&command.data) {
        Ok(data) => data,
        Err(error) => {
            return Err(EncodeError::Document(error));
        },
    };
    if data.len() > u32::MAX as usize {
        return Err(EncodeError::BodyTooLong);
    }
    Ok(Command { header, data })
}

/// Reads `frame` as a command.
pub fn decode_bson_command(frame: Command) -> (decoded: Result<
    ReadBsonCommand<Document>,
    ReadError,
>)
    ensures
        decodes_to(frame@, decoded),
{
    if frame.header.status != 0 {
        return Err(ReadError::Corrupted(frame));
    }
    let method = match frame.header.method() {
        Ok(method) => method,
        Err(error) => {
            return Err(ReadError::InvalidMethod(error));
        },
    };
    let data = match decode_document(frame.data.as_slice()) {
        Ok(data) => data,
        Err(error) => {
            return Err(ReadError::Decode(error));
        },
    };
    Ok(
        ReadBsonCommand {
            read_id: frame.header.id,
            command: BsonCommand::new(method, frame.header.data_type, data),
        },
    )
}

/// Frames commands into a send buffer and takes them out of a receive
/// buffer, around a transport `S` that it only keeps.
#[derive(Debug)]
pub struct BsonCommandCodec<S> {
    stream: S,
    read_buffer: Vec<u8>,
    write_buffer: Vec<u8>,
}

impl<S> BsonCommandCodec<S> {
    /// The transport.
    pub closed spec fn transport(&self) -> S {
        self.stream
    }

    /// Bytes received and not yet read as frames.
    pub closed spec fn inbound(&self) -> Seq<u8> {
        self.read_buffer@
    }

    /// Bytes written and not yet handed out.
    pub closed spec fn outbound(&self) -> Seq<u8> {
        self.write_buffer@
    }

    /// A codec around `stream`, with both buffers empty.
    pub fn new(stream: S) -> (codec: Self)
        ensures
            codec.transport() == stream,
            codec.inbound() == Seq::<u8>::empty(),
            codec.outbound() == Seq::<u8>::empty(),
    {
        Self { stream, read_buffer: Vec::new(), write_buffer: Vec::new() }
    }

    pub fn stream(&self) -> (stream: &S)
        ensures
            *stream == self.transport(),
    {
        &self.stream
    }

    /// The transport, to read from or write to. The buffers stay as they are.
    pub fn stream_mut(&mut self) -> (stream: &mut S)
        ensures
            *stream == old(self).transport(),
            final(self).transport() == *final(stream),
            final(self).inbound() == old(self).inbound(),
            final(self).outbound() == old(self).outbound(),
    {
        &mut self.stream
    }

    /// Gives up the transport. What the buffers hold is lost.
    pub fn into_inner(self) -> (stream: S)
        ensures
            stream == self.transport(),
    {
        self.stream
    }

    /// Puts the frame for `command`, as request `request_id`, at the end of
    /// the send buffer. A command that has no frame leaves the buffer as it
    /// was.
    pub fn write(&mut self, request_id: i32, command: &BsonCommand<Document>) -> (written: Result<
        (),
        WriteError,
    >)
        ensures
            final(self).transport() == old(self).transport(),
            final(self).inbound() == old(self).inbound(),
            match written {
                Ok(()) => {
                    &&& writable(*command)
                    &&& final(self).outbound() == old(self).outbound() + encode_command(
                        request_frame(request_id, *command),
                    )
                },
                Err(error) => {
                    &&& final(self).outbound() == old(self).outbound()
                    &&& error matches WriteError::Encode(error)
                    &&& refuses(error, *command)
                },
            },
    {
        match encode_bson_command(request_id, command) {
            Ok(frame) => {
                match frame.encode() {
                    Some(bytes) => {
                        self.write_buffer.extend_from_slice(bytes.as_slice());
                        Ok(())
                    },
                    None => Err(WriteError::Encode(EncodeError::BodyTooLong)),
                }
            },
            Err(error) => Err(WriteError::Encode(error)),
        }
    }

    /// Hands out what is to be sent, in the order it was written, and empties
    /// the send buffer.
    pub fn flush(&mut self) -> (bytes: Vec<u8>)
        ensures
            bytes@ == old(self).outbound(),
            final(self).outbound() == Seq::<u8>::empty(),
            final(self).inbound() == old(self).inbound(),
            final(self).transport() == old(self).transport(),
    {
        let mut bytes = Vec::new();
        std::mem::swap(&mut bytes, &mut self.write_buffer);
        bytes
    }

    /// Takes in bytes that the transport delivered.
    pub fn feed(&mut self, bytes: &[u8])
        ensures
            final(self).inbound() == old(self).inbound() + bytes@,
            final(self).outbound() == old(self).outbound(),
            final(self).transport() == old(self).transport(),
    {
        self.read_buffer.extend_from_slice(bytes);
    }

    /// How many more bytes the next frame needs before it can be read: what
    /// is missing of its header, or else of the body that the header
    /// announces; 0 where nothing is missing or the body is refused.
    pub fn wanted(&self) -> (missing: usize)
        ensures
            missing == match scan_of(self.inbound()) {
                Scan::Needs(missing) => missing,
                _ => 0,
            },
    {
        match scan(self.read_buffer.as_slice()) {
            Scan::Needs(missing) => missing,
            _ => 0,
        }
    }

    /// Takes the next frame out of the receive buffer, if a whole one is
    /// there. The frame leaves the buffer; an unfinished one, or one whose
    /// body would be too long, stays.
    pub fn read_frame(&mut self) -> (frame: Result<Option<Command>, ReadError>)
        ensures
            final(self).transport() == old(self).transport(),
            final(self).outbound() == old(self).outbound(),
            match scan_of(old(self).inbound()) {
                Scan::Needs(_) => {
                    &&& frame matches Ok(None)
                    &&& final(self).inbound() == old(self).inbound()
                },
                Scan::Oversized(announced) => {
                    &&& frame matches Err(ReadError::OversizedBody(size))
                    &&& size == announced
                    &&& final(self).inbound() == old(self).inbound()
                },
                Scan::Whole(whole) => {
                    &&& frame matches Ok(Some(frame))
                    &&& frame@ == decode_command(old(self).inbound())
                    &&& final(self).inbound() == old(self).inbound().skip(whole as int)
                },
            },
    {
        match scan(self.read_buffer.as_slice()) {
            Scan::Needs(_) => Ok(None),
            Scan::Oversized(announced) => Err(ReadError::OversizedBody(announced)),
            Scan::Whole(whole) => {
                match Command::decode(self.read_buffer.as_slice()) {
                    Some((frame, _)) => {
                        let rest = self.read_buffer.split_off(whole);
                        self.read_buffer = rest;
                        assert(self.read_buffer@ =~= old(self).inbound().skip(whole as int));
                        Ok(Some(frame))
                    },
                    None => Ok(None),
                }
            },
        }
    }

    /// Takes the next frame out of the receive buffer, if a whole one is
    /// there, and reads it as a command.
    pub fn read(&mut self) -> (read: Result<Option<ReadBsonCommand<Document>>, ReadError>)
        ensures
            final(self).transport() == old(self).transport(),
            final(self).outbound() == old(self).outbound(),
            match scan_of(old(self).inbound()) {
                Scan::Needs(_) => {
                    &&& read matches Ok(None)
                    &&& final(self).inbound() == old(self).inbound()
                },
                Scan::Oversized(announced) => {
                    &&& read matches Err(ReadError::OversizedBody(size))
                    &&& size == announced
                    &&& final(self).inbound() == old(self).inbound()
                },
                Scan::Whole(whole) => {
                    &&& final(self).inbound() == old(self).inbound().skip(whole as int)
                    &&& match read {
                        Ok(Some(command)) => decodes_to(
                            decode_command(old(self).inbound()),
                            Ok(command),
                        ),
                        Ok(None) => false,
                        Err(error) => decodes_to(decode_command(old(self).inbound()), Err(error)),
                    }
                },
            },
    {
        match self.read_frame() {
            Ok(Some(frame)) => {
                match decode_bson_command(frame) {
                    Ok(command) => Ok(Some(command)),
                    Err(error) => Err(error),
                }
            },
            Ok(None) => Ok(None),
            Err(error) => Err(error),
        }
    }
}

/// What is written can be read back: the frame of a command that has one,
/// with a body of at most [`MAX_DATA_SIZE`](crate::frame::MAX_DATA_SIZE)
/// bytes, is found whole at the front of a receive buffer that starts with
/// its bytes, and decoding it gives the frame that was written, field by
/// field and byte by byte. If the method name holds no zero byte, the method
/// name read from the frame is the one written; and if, besides, the parser
/// is asked for the body and gives back the document that was written, the
/// command read is the command written, under the id it was written with.
/// That the parser does so for a document is the parser's affair: nothing
/// here says of which documents it holds.
pub proof fn lemma_written_command_reads_back(
    id: i32,
    command: BsonCommand<Document>,
    rest: Seq<u8>,
)
    requires
        writable(command),
        bytes_of_document(command.data).unwrap().len() <= crate::frame::MAX_DATA_SIZE,
    ensures
        scan_of(encode_command(request_frame(id, command)) + rest) == Scan::Whole(
            (22 + bytes_of_document(command.data).unwrap().len()) as usize,
        ),
        decode_command(encode_command(request_frame(id, command)) + rest) == request_frame(
            id,
            command,
        ),
        (forall|i: int|
            0 <= i < encode_utf8(command.method@).len() ==> encode_utf8(command.method@)[i] != 0)
            ==> decode_utf8(method_name(request_frame(id, command).header.method))
            == command.method@,
        // Where the parser is asked for the body and gives back the document
        // that was written, the command read is the command written.
        (forall|i: int|
            0 <= i < encode_utf8(command.method@).len() ==> encode_utf8(command.method@)[i] != 0)
            && crate::document::readable(bytes_of_document(command.data).unwrap())
            && document_of_bytes(bytes_of_document(command.data).unwrap()) == Some(command.data)
            ==> decodes_to(
            request_frame(id, command),
            Ok(ReadBsonCommand { read_id: id, command }),
        ),
{
    crate::frame::laws::lemma_command_round_trip(request_frame(id, command), rest);
    if forall|i: int|
        0 <= i < encode_utf8(command.method@).len() ==> encode_utf8(command.method@)[i] != 0 {
        crate::frame::laws::lemma_method_round_trip(encode_utf8(command.method@));
        encode_utf8_decode_utf8(command.method@);
        encode_utf8_valid_utf8(command.method@);
    }
}

/// A method name in ASCII comes back as written: the name read from the
/// method field of a name of at most 11 characters, all of them ASCII and
/// none of them NUL, is that name.
pub proof fn lemma_ascii_method_reads_back(method: Seq<char>)
    requires
        is_ascii_chars(method),
        method.len() <= 11,
        forall|i: int| 0 <= i < method.len() ==> method[i] != '\0',
    ensures
        encode_utf8(method).len() == method.len(),
        valid_utf8(method_name(method_field(encode_utf8(method)))),
        decode_utf8(method_name(method_field(encode_utf8(method)))) == method,
{
    is_ascii_chars_encode_utf8(method);
    let bytes = encode_utf8(method);
    assert forall|i: int| 0 <= i < bytes.len() implies bytes[i] != 0 by {
        assert(method[i] as u8 == bytes[i]);
        assert('\0' <= method[i] <= '\u{7f}');
    }
    crate::frame::laws::lemma_method_round_trip(bytes);
    encode_utf8_valid_utf8(method);
    encode_utf8_decode_utf8(method);
}

} // verus!
