//! The command frame as it stands on the wire.
//!
//! A frame is a header of 22 bytes followed by the body. All integers are
//! little-endian, signed ones in two's complement.
//!
//! | offset | size | field       |
//! |-------:|-----:|-------------|
//! |      0 |    4 | `id`        |
//! |      4 |    2 | `status`    |
//! |      6 |   11 | `method`    |
//! |     17 |    1 | `data_type` |
//! |     18 |    4 | `data_size` |

pub mod laws;

use crate::bytes::{
    bits_i16, bits_i32, bits_i8, le_u16, le_u32, push_le_u16, push_le_u32, read_le_u16,
    read_le_u32, signed_u16, signed_u32, signed_u8, to_bits_i16, to_bits_i32, to_bits_i8,
    to_signed_u16, to_signed_u32, to_signed_u8, u16_of_le, u32_of_le,
};
use crate::frame::laws::lemma_name_len_unique;
use vstd::prelude::*;
use vstd::slice::*;
use vstd::string::*;
use vstd::utf8::*;

verus! {

/// Bytes in an encoded header.
pub const HEADER_SIZE: usize = 22;

/// Bytes in the method field of a header.
pub const METHOD_SIZE: usize = 11;

/// Largest body, in bytes, that is accepted from the wire (16 MiB).
pub const MAX_DATA_SIZE: u32 = 16777216;

/// `std::string::FromUtf8Error`, carried through unread.
#[verifier::external_type_specification]
#[verifier::external_body]
pub struct ExFromUtf8Error(std::string::FromUtf8Error);

/// `String::from_utf8` succeeds exactly on valid UTF-8, and the string it
/// gives then consists of the bytes it was given.
pub assume_specification[ String::from_utf8 ](vec: Vec<u8>) -> (text: Result<
    String,
    std::string::FromUtf8Error,
>)
    ensures
        text is Ok <==> valid_utf8(vec@),
        text is Ok ==> encode_utf8(text->Ok_0@) == vec@,
;

/// What a header holds: the fixed fields of a frame but for the body's length,
/// which a frame takes from its body.
#[derive(Clone, Copy, Debug, PartialEq, Eq)]
pub struct Header {
    /// Request id, chosen by whoever sent the request.
    pub id: i32,
    /// `0` for success; anything else marks the frame as rejected.
    pub status: i16,
    /// Method name, padded with zero bytes.
    pub method: [u8; 11],
    /// How the body is encoded; carried through untouched.
    pub data_type: i8,
}

/// A frame: header and body.
#[derive(Clone, Debug, PartialEq, Eq)]
pub struct Command {
    pub header: Header,
    pub data: Vec<u8>,
}

/// A header as a mathematical value. `method` has 11 bytes in every header
/// that comes from a [`Header`].
pub struct HeaderView {
    pub id: i32,
    pub status: i16,
    pub method: Seq<u8>,
    pub data_type: i8,
}

/// A frame as a mathematical value.
pub struct CommandView {
    pub header: HeaderView,
    pub data: Seq<u8>,
}

impl View for Header {
    type V = HeaderView;

    open spec fn view(&self) -> HeaderView {
        HeaderView {
            id: self.id,
            status: self.status,
            method: self.method@,
            data_type: self.data_type,
        }
    }
}

impl View for Command {
    type V = CommandView;

    open spec fn view(&self) -> CommandView {
        CommandView { header: self.header@, data: self.data@ }
    }
}

/// Number of bytes of `field` before its first zero byte: all of them if it
/// has none.
pub open spec fn name_len(field: Seq<u8>) -> nat
    decreases field.len(),
{
    if field.len() == 0 || field[0] == 0 {
        0
    } else {
        1 + name_len(field.drop_first())
    }
}

/// The method name in a method field: what stands before the first zero byte.
pub open spec fn method_name(field: Seq<u8>) -> Seq<u8> {
    field.take(name_len(field) as int)
}

/// The method field for a name: the name, then zero bytes up to 11 bytes.
pub open spec fn method_field(name: Seq<u8>) -> Seq<u8> {
    Seq::new(
        11,
        |i: int|
            if i < name.len() {
                name[i]
            } else {
                0u8
            },
    )
}

/// The 22 bytes of a header on the wire, for a body of `data_size` bytes.
pub open spec fn encode_header(header: HeaderView, data_size: u32) -> Seq<u8> {
    le_u32(bits_i32(header.id)) + le_u16(bits_i16(header.status)) + header.method
        + seq![bits_i8(header.data_type)] + le_u32(data_size)
}

/// The header in the first 22 bytes of `bytes`.
pub open spec fn decode_header(bytes: Seq<u8>) -> HeaderView {
    HeaderView {
        id: signed_u32(u32_of_le(bytes[0], bytes[1], bytes[2], bytes[3])),
        status: signed_u16(u16_of_le(bytes[4], bytes[5])),
        method: bytes.subrange(6, 17),
        data_type: signed_u8(bytes[17]),
    }
}

/// The body length in the first 22 bytes of `bytes`.
pub open spec fn decode_data_size(bytes: Seq<u8>) -> u32 {
    u32_of_le(bytes[18], bytes[19], bytes[20], bytes[21])
}

/// A frame on the wire: the header, then the body.
pub open spec fn encode_command(command: CommandView) -> Seq<u8> {
    encode_header(command.header, command.data.len() as u32) + command.data
}

/// Whether a frame can be written: its method field has 11 bytes and the
/// length of its body fits the header.
pub open spec fn encodable(command: CommandView) -> bool {
    command.header.method.len() == 11 && command.data.len() <= u32::MAX
}

/// What the front of a receive buffer holds.
pub enum Scan {
    /// Not yet a whole frame: so many bytes are missing.
    Needs(usize),
    /// A header whose body would be longer than [`MAX_DATA_SIZE`]; the
    /// length it gives.
    Oversized(u32),
    /// A whole frame of so many bytes, header included.
    Whole(usize),
}

/// What the front of `buffer` holds.
pub open spec fn scan_of(buffer: Seq<u8>) -> Scan {
    if buffer.len() < 22 {
        Scan::Needs((22 - buffer.len()) as usize)
    } else if decode_data_size(buffer) > MAX_DATA_SIZE {
        Scan::Oversized(decode_data_size(buffer))
    } else if buffer.len() < 22 + decode_data_size(buffer) {
        Scan::Needs((22 + decode_data_size(buffer) - buffer.len()) as usize)
    } else {
        Scan::Whole((22 + decode_data_size(buffer)) as usize)
    }
}

/// The frame in `bytes`, which hold a header and the body it announces.
pub open spec fn decode_command(bytes: Seq<u8>) -> CommandView {
    CommandView {
        header: decode_header(bytes),
        data: bytes.subrange(22, 22 + decode_data_size(bytes)),
    }
}

/// The method field for `method`, or `None` if its UTF-8 form is longer than
/// 11 bytes.
pub fn encode_method(method: &str) -> (field: Option<[u8; 11]>)
    ensures
        field is Some <==> method.spec_bytes().len() <= 11,
        field is Some ==> field->0@ == method_field(method.spec_bytes()),
{
    let name = method.as_bytes();
    if name.len() > METHOD_SIZE {
        return None;
    }
    let mut field = [0u8; 11];
    let mut i: usize = 0;
    while i < name.len()
        invariant
            i <= name.len() <= 11,
            forall|j: int| 0 <= j < i ==> field@[j] == name@[j],
            forall|j: int| i <= j < 11 ==> field@[j] == 0,
        decreases name.len() - i,
    {
        field[i] = name[i];
        i += 1;
    }
    assert(field@ =~= method_field(name@));
    Some(field)
}

impl Header {
    /// A header for `method`, or `None` if the name is longer than 11 bytes.
    pub fn new(id: i32, status: i16, method: &str, data_type: i8) -> (header: Option<Header>)
        ensures
            header is Some <==> method.spec_bytes().len() <= 11,
            header is Some ==> header->0@ == (HeaderView {
                id,
                status,
                method: method_field(method.spec_bytes()),
                data_type,
            }),
    {
        match encode_method(method) {
            Some(field) => Some(Header { id, status, method: field, data_type }),
            None => None,
        }
    }

    /// The method name: what stands before the first zero byte of the method
    /// field, if that is UTF-8.
    pub fn method(&self) -> (name: Result<String, std::string::FromUtf8Error>)
        ensures
            name is Ok <==> valid_utf8(method_name(self@.method)),
            name is Ok ==> name->Ok_0@ == decode_utf8(method_name(self@.method)),
    {
        let mut bytes: Vec<u8> = Vec::new();
        let mut i: usize = 0;
        while i < METHOD_SIZE && self.method[i] != 0
            invariant
                i <= 11,
                bytes@ == self.method@.take(i as int),
                forall|j: int| 0 <= j < i ==> self.method@[j] != 0,
            decreases 11 - i,
        {
            bytes.push(self.method[i]);
            i += 1;
            assert(bytes@ =~= self.method@.take(i as int));
        }
        proof {
            lemma_name_len_unique(self.method@, i as int);
        }
        let name = String::from_utf8(bytes);
        proof {
            if name is Ok {
                encode_utf8_decode_utf8(name->Ok_0@);
            }
        }
        name
    }

    /// The 22 bytes of this header on the wire, for a body of `data_size`
    /// bytes.
    pub fn encode(&self, data_size: u32) -> (bytes: Vec<u8>)
        ensures
            bytes@ == encode_header(self@, data_size),
    {
        let mut bytes: Vec<u8> = Vec::new();
        push_le_u32(&mut bytes, to_bits_i32(self.id));
        push_le_u16(&mut bytes, to_bits_i16(self.status));
        let mut i: usize = 0;
        while i < METHOD_SIZE
            invariant
                i <= 11,
                bytes@ == le_u32(bits_i32(self.id)) + le_u16(bits_i16(self.status))
                    + self.method@.take(i as int),
            decreases 11 - i,
        {
            bytes.push(self.method[i]);
            i += 1;
            assert(bytes@ =~= le_u32(bits_i32(self.id)) + le_u16(bits_i16(self.status))
                + self.method@.take(i as int));
        }
        assert(self.method@.take(11) =~= self.method@);
        bytes.push(to_bits_i8(self.data_type));
        push_le_u32(&mut bytes, data_size);
        assert(bytes@ =~= encode_header(self@, data_size));
        bytes
    }

    /// The header and the body length in the first 22 bytes of `bytes`, or
    /// `None` if there are fewer.
    pub fn decode(bytes: &[u8]) -> (decoded: Option<(Header, u32)>)
        ensures
            match decoded {
                Some((header, data_size)) => {
                    &&& bytes@.len() >= 22
                    &&& header@ == decode_header(bytes@)
                    &&& data_size == decode_data_size(bytes@)
                },
                None => bytes@.len() < 22,
            },
    {
        if bytes.len() < HEADER_SIZE {
            return None;
        }
        let id = to_signed_u32(read_le_u32(bytes[0], bytes[1], bytes[2], bytes[3]));
        let status = to_signed_u16(read_le_u16(bytes[4], bytes[5]));
        let mut method = [0u8; 11];
        let mut i: usize = 0;
        while i < METHOD_SIZE
            invariant
                i <= 11,
                bytes@.len() >= 22,
                forall|j: int| 0 <= j < i ==> method@[j] == bytes@[6 + j],
            decreases 11 - i,
        {
            method[i] = bytes[6 + i];
            i += 1;
        }
        assert(method@ =~= bytes@.subrange(6, 17));
        let data_type = to_signed_u8(bytes[17]);
        let data_size = read_le_u32(bytes[18], bytes[19], bytes[20], bytes[21]);
        Some((Header { id, status, method, data_type }, data_size))
    }
}

/// What the front of `buffer` holds: a whole frame, the start of one, or a
/// header that announces too long a body.
pub fn scan(buffer: &[u8]) -> (found: Scan)
    ensures
        found == scan_of(buffer@),
{
    match Header::decode(buffer) {
        None => Scan::Needs(HEADER_SIZE - buffer.len()),
        Some((_, data_size)) => {
            if data_size > MAX_DATA_SIZE {
                Scan::Oversized(data_size)
            } else {
                let whole: usize = HEADER_SIZE + data_size as usize;
                if buffer.len() < whole {
                    Scan::Needs(whole - buffer.len())
                } else {
                    Scan::Whole(whole)
                }
            }
        },
    }
}

impl Command {
    /// This frame on the wire, or `None` if its body is too long for the
    /// header's 32-bit length.
    pub fn encode(&self) -> (bytes: Option<Vec<u8>>)
        ensures
            bytes is Some <==> self@.data.len() <= u32::MAX,
            bytes is Some ==> bytes->0@ == encode_command(self@),
    {
        if self.data.len() > u32::MAX as usize {
            return None;
        }
        let mut bytes = self.header.encode(self.data.len() as u32);
        bytes.extend_from_slice(self.data.as_slice());
        Some(bytes)
    }

    /// The frame at the front of `buffer` and its length in bytes, or `None`
    /// if no whole frame with a body of at most [`MAX_DATA_SIZE`] bytes stands
    /// there.
    pub fn decode(buffer: &[u8]) -> (decoded: Option<(Command, usize)>)
        ensures
            match decoded {
                Some((command, whole)) => {
                    &&& scan_of(buffer@) == Scan::Whole(whole)
                    &&& command@ == decode_command(buffer@)
                },
                None => !(scan_of(buffer@) is Whole),
            },
    {
        match scan(buffer) {
            Scan::Whole(whole) => {
                match Header::decode(buffer) {
                    Some((header, _)) => {
                        let data = slice_to_vec(slice_subrange(buffer, HEADER_SIZE, whole));
                        Some((Command { header, data }, whole))
                    },
                    None => None,
                }
            },
            _ => None,
        }
    }
}

} // verus!
