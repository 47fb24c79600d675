//! What holds of the wire format: what is written can be read back, and a
//! frame is the same however the bytes around it are cut.

use crate::bytes::{
    bits_i16, bits_i32, bits_i8, le_u16, le_u32, lemma_bits_round_trip, lemma_le_u16_round_trip,
    lemma_le_u32_round_trip, lemma_u16_of_le_round_trip, lemma_u32_of_le_round_trip, u16_of_le,
    u32_of_le,
};
use crate::frame::{
    decode_command, decode_data_size, decode_header, encodable, encode_command, encode_header,
    method_field, method_name, name_len, scan_of, CommandView, HeaderView, Scan, MAX_DATA_SIZE,
};
use vstd::prelude::*;

verus! {

/// An encoded header has 22 bytes, and decoding them, whatever follows,
/// gives back every field and the body length.
pub proof fn lemma_header_round_trip(header: HeaderView, data_size: u32, rest: Seq<u8>)
    requires
        header.method.len() == 11,
    ensures
        encode_header(header, data_size).len() == 22,
        decode_header(encode_header(header, data_size) + rest) == header,
        decode_data_size(encode_header(header, data_size) + rest) == data_size,
{
    let bytes = encode_header(header, data_size);
    let all = bytes + rest;
    lemma_le_u32_round_trip(bits_i32(header.id));
    lemma_le_u16_round_trip(bits_i16(header.status));
    lemma_le_u32_round_trip(data_size);
    lemma_bits_round_trip(header.data_type, header.status, header.id, 0, 0, 0);
    assert(bytes.len() == 22);
    assert(all[0] == le_u32(bits_i32(header.id))[0]);
    assert(all[1] == le_u32(bits_i32(header.id))[1]);
    assert(all[2] == le_u32(bits_i32(header.id))[2]);
    assert(all[3] == le_u32(bits_i32(header.id))[3]);
    assert(all[4] == le_u16(bits_i16(header.status))[0]);
    assert(all[5] == le_u16(bits_i16(header.status))[1]);
    assert(all[17] == bits_i8(header.data_type));
    assert(all[18] == le_u32(data_size)[0]);
    assert(all[19] == le_u32(data_size)[1]);
    assert(all[20] == le_u32(data_size)[2]);
    assert(all[21] == le_u32(data_size)[3]);
    assert(all.subrange(6, 17) =~= header.method);
}

/// Any 22 bytes are the encoding of the header and body length read from
/// them: no two headers look alike on the wire.
pub proof fn lemma_header_bytes_round_trip(bytes: Seq<u8>)
    requires
        bytes.len() == 22,
    ensures
        encode_header(decode_header(bytes), decode_data_size(bytes)) == bytes,
{
    lemma_u32_of_le_round_trip(bytes[0], bytes[1], bytes[2], bytes[3]);
    lemma_u16_of_le_round_trip(bytes[4], bytes[5]);
    lemma_u32_of_le_round_trip(bytes[18], bytes[19], bytes[20], bytes[21]);
    lemma_bits_round_trip(
        0,
        0,
        0,
        bytes[17],
        u16_of_le(bytes[4], bytes[5]),
        u32_of_le(bytes[0], bytes[1], bytes[2], bytes[3]),
    );
    assert(encode_header(decode_header(bytes), decode_data_size(bytes)) =~= bytes);
}

/// Round trip of a frame: where a written frame stands at the front of a
/// receive buffer, with a body no longer than [`MAX_DATA_SIZE`], the buffer
/// holds a whole frame of exactly the written length, and decoding gives back
/// every header field and every body byte.
pub proof fn lemma_command_round_trip(command: CommandView, rest: Seq<u8>)
    requires
        encodable(command),
        command.data.len() <= MAX_DATA_SIZE,
    ensures
        encode_command(command).len() == 22 + command.data.len(),
        scan_of(encode_command(command) + rest) == Scan::Whole(
            (22 + command.data.len()) as usize,
        ),
        decode_command(encode_command(command) + rest) == command,
{
    let size = command.data.len() as u32;
    let head = encode_header(command.header, size);
    let all = encode_command(command) + rest;
    assert(all =~= head + (command.data + rest));
    lemma_header_round_trip(command.header, size, command.data + rest);
    assert(all.subrange(22, 22 + size) =~= command.data);
}

/// What stands behind a frame does not change it: once the front of a
/// buffer holds a whole frame, or a header that is refused, it holds the
/// same whatever is appended. So it does not matter how the transport cuts
/// the bytes into reads.
pub proof fn lemma_scan_is_stable(buffer: Seq<u8>, more: Seq<u8>)
    requires
        !(scan_of(buffer) is Needs),
    ensures
        scan_of(buffer + more) == scan_of(buffer),
        decode_header(buffer + more) == decode_header(buffer),
        scan_of(buffer) matches Scan::Whole(whole) ==> {
            &&& decode_command(buffer + more) == decode_command(buffer)
            &&& (buffer + more).skip(whole as int) == buffer.skip(whole as int) + more
        },
{
    let all = buffer + more;
    assert(all.subrange(6, 17) =~= buffer.subrange(6, 17));
    if let Scan::Whole(whole) = scan_of(buffer) {
        assert(all.subrange(22, 22 + decode_data_size(all)) =~= buffer.subrange(
            22,
            22 + decode_data_size(buffer),
        ));
        assert(all.skip(whole as int) =~= buffer.skip(whole as int) + more);
    }
}

/// A buffer that is short of a whole frame by some bytes holds a whole frame,
/// or a header that is refused, or is short of fewer bytes, once it has been
/// given no more than that many bytes: a reader that asks for what is missing
/// never takes a byte of the frame behind.
pub proof fn lemma_missing_bytes_belong_to_the_frame(buffer: Seq<u8>, more: Seq<u8>)
    requires
        scan_of(buffer) matches Scan::Needs(missing) && more.len() <= missing,
    ensures
        match scan_of(buffer + more) {
            Scan::Needs(missing) => true,
            Scan::Oversized(_) => buffer.len() < 22 && buffer.len() + more.len() == 22,
            Scan::Whole(whole) => whole == buffer.len() + more.len(),
        },
{
    let all = buffer + more;
    if buffer.len() >= 22 {
        assert(decode_data_size(all) == decode_data_size(buffer));
    }
}

/// `name_len` finds the first zero byte: nothing before it is zero, and it
/// stops at a zero byte or at the end.
pub proof fn lemma_name_len(field: Seq<u8>)
    ensures
        name_len(field) <= field.len(),
        forall|i: int| 0 <= i < name_len(field) ==> field[i] != 0,
        name_len(field) < field.len() ==> field[name_len(field) as int] == 0,
    decreases field.len(),
{
    if field.len() != 0 && field[0] != 0 {
        let tail = field.drop_first();
        lemma_name_len(tail);
        assert forall|i: int| 0 <= i < name_len(field) implies field[i] != 0 by {
            if i > 0 {
                assert(field[i] == tail[i - 1]);
            }
        }
        if name_len(field) < field.len() {
            assert(field[name_len(field) as int] == tail[name_len(tail) as int]);
        }
    }
}

/// The place of the first zero byte is `name_len`: there is only one such
/// place.
pub proof fn lemma_name_len_unique(field: Seq<u8>, k: int)
    requires
        0 <= k <= field.len(),
        forall|i: int| 0 <= i < k ==> field[i] != 0,
        k < field.len() ==> field[k] == 0,
    ensures
        name_len(field) == k,
    decreases field.len(),
{
    if field.len() != 0 && field[0] != 0 {
        let tail = field.drop_first();
        assert forall|i: int| 0 <= i < k - 1 implies tail[i] != 0 by {
            assert(tail[i] == field[i + 1]);
        }
        if k < field.len() {
            assert(tail[k - 1] == field[k]);
        }
        lemma_name_len_unique(tail, k - 1);
    }
}

/// The method field of a name of at most 11 bytes has exactly 11 bytes: the
/// name first, zero bytes after it.
pub proof fn lemma_method_field_is_padded(name: Seq<u8>)
    requires
        name.len() <= 11,
    ensures
        method_field(name).len() == 11,
        method_field(name).take(name.len() as int) == name,
        forall|i: int| name.len() <= i < 11 ==> method_field(name)[i] == 0,
{
    assert(method_field(name).take(name.len() as int) =~= name);
}

/// A name of at most 11 bytes, none of them zero, comes back out of its
/// method field.
pub proof fn lemma_method_round_trip(name: Seq<u8>)
    requires
        name.len() <= 11,
        forall|i: int| 0 <= i < name.len() ==> name[i] != 0,
    ensures
        method_name(method_field(name)) == name,
{
    lemma_name_len_unique(method_field(name), name.len() as int);
    assert(method_field(name).take(name.len() as int) =~= name);
}

} // verus!
