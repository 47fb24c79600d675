use bson::{Bson, Document};
use talk_loco_client::command::codec::{
    decode_bson_command, encode_bson_command, BsonCommandCodec, EncodeError, ReadError,
    WriteError,
};
use talk_loco_client::command::BsonCommand;
use talk_loco_client::document::{decode_document, DecodeError};
use talk_loco_client::frame::{Command, Header, MAX_DATA_SIZE};

fn user_id_document() -> Document {
    let mut document = Document::new();
    document.insert("userId", 1i32);
    document
}

/// `{userId: 1}` as BSON.
const USER_ID_BYTES: [u8; 17] =
    [17, 0, 0, 0, 0x10, b'u', b's', b'e', b'r', b'I', b'd', 0, 1, 0, 0, 0, 0];

fn frame(id: i32, status: i16, method: &str, body: &[u8]) -> Command {
    Command { header: Header::new(id, status, method, 0).unwrap(), data: body.to_vec() }
}

#[test]
fn document_bytes_are_those_of_the_bson_crate() {
    let command = BsonCommand::new_const("CHECKIN", 0, user_id_document());
    let frame = encode_bson_command(0, &command).unwrap();
    assert_eq!(frame.data, USER_ID_BYTES);
    let mut expected = Vec::new();
    user_id_document().to_writer(&mut expected).unwrap();
    assert_eq!(frame.data, expected);
}

#[test]
fn empty_document_is_five_bytes() {
    let command = BsonCommand::new_const("PING", 0, Document::new());
    assert_eq!(encode_bson_command(3, &command).unwrap().data, vec![5, 0, 0, 0, 0]);
}

#[test]
fn request_frame_has_status_zero_and_the_given_id() {
    let command = BsonCommand::new_const("CHECKIN", 5, user_id_document());
    let frame = encode_bson_command(-12, &command).unwrap();
    assert_eq!(frame.header, Header { id: -12, status: 0, method: *b"CHECKIN\0\0\0\0", data_type: 5 });
}

#[test]
fn method_too_long_is_an_encode_error() {
    let command = BsonCommand::new_const("THIS_IS_TOO_LONG", 0, Document::new());
    assert!(matches!(encode_bson_command(0, &command), Err(EncodeError::MethodTooLong)));
    let twelve = BsonCommand::new_const("TWELVE_BYTES", 0, Document::new());
    assert!(matches!(encode_bson_command(0, &twelve), Err(EncodeError::MethodTooLong)));
    let eleven = BsonCommand::new_const("ELEVENBYTES", 0, Document::new());
    assert!(encode_bson_command(0, &eleven).is_ok());
}

#[test]
fn document_without_bson_form_is_an_encode_error() {
    // A key may not hold a zero byte.
    let mut document = Document::new();
    document.insert("a\0b", 1i32);
    let command = BsonCommand::new_const("CHECKIN", 0, document);
    assert!(matches!(encode_bson_command(0, &command), Err(EncodeError::Document(_))));
}

#[test]
fn method_is_checked_before_the_document() {
    let mut document = Document::new();
    document.insert("a\0b", 1i32);
    let command = BsonCommand::new_const("THIS_IS_TOO_LONG", 0, document);
    assert!(matches!(encode_bson_command(0, &command), Err(EncodeError::MethodTooLong)));
}

#[test]
fn decode_document_reads_what_the_bson_crate_reads() {
    let document = decode_document(&USER_ID_BYTES).unwrap();
    assert_eq!(document, user_id_document());
    assert_eq!(document.get("userId"), Some(&Bson::Int32(1)));
    assert_eq!(decode_document(&[5, 0, 0, 0, 0]).unwrap(), Document::new());
}

#[test]
fn decode_document_ignores_what_follows_the_document() {
    let mut bytes = USER_ID_BYTES.to_vec();
    bytes.extend_from_slice(&[1, 2, 3]);
    assert_eq!(decode_document(&bytes).unwrap(), user_id_document());
}

#[test]
fn decode_document_refuses_a_length_beyond_the_bytes() {
    assert!(matches!(decode_document(&USER_ID_BYTES[..16]), Err(DecodeError::Truncated)));
    assert!(matches!(decode_document(&[6, 0, 0, 0, 0]), Err(DecodeError::Truncated)));
    assert!(matches!(decode_document(&[0xff, 0xff, 0xff, 0x7f]), Err(DecodeError::Truncated)));
}

#[test]
fn decode_document_leaves_other_complaints_to_the_parser() {
    assert!(matches!(decode_document(&[]), Err(DecodeError::Document(_))));
    assert!(matches!(decode_document(&[5, 0, 0]), Err(DecodeError::Document(_))));
    // Shorter than any document.
    assert!(matches!(decode_document(&[4, 0, 0, 0]), Err(DecodeError::Document(_))));
    // A negative length.
    assert!(matches!(decode_document(&[0xff, 0xff, 0xff, 0xff, 0]), Err(DecodeError::Document(_))));
    // Not terminated by a zero byte.
    assert!(matches!(decode_document(&[5, 0, 0, 0, 1]), Err(DecodeError::Document(_))));
    // An element type that does not exist.
    assert!(matches!(
        decode_document(&[8, 0, 0, 0, 0x63, b'a', 0, 0]),
        Err(DecodeError::Document(_))
    ));
}

#[test]
fn decode_gives_the_command_with_the_frame_id() {
    let read = decode_bson_command(frame(7000, 0, "MSG", &USER_ID_BYTES)).unwrap();
    assert_eq!(read.read_id, 7000);
    assert_eq!(read.command.method, "MSG");
    assert_eq!(read.command.data_type, 0);
    assert_eq!(read.command.data, user_id_document());
}

#[test]
fn decode_gives_back_a_frame_with_nonzero_status() {
    let rejected = frame(0, 1, "CHECKIN", &USER_ID_BYTES);
    match decode_bson_command(rejected.clone()) {
        Err(ReadError::Corrupted(frame)) => assert_eq!(frame, rejected),
        other => panic!("{:?}", other),
    }
    assert!(matches!(
        decode_bson_command(frame(0, -1, "CHECKIN", &[])),
        Err(ReadError::Corrupted(_))
    ));
}

#[test]
fn decode_checks_status_then_method_then_body() {
    let mut bad_method = frame(0, 1, "", &[1, 2, 3]);
    bad_method.header.method[0] = 0xff;
    assert!(matches!(decode_bson_command(bad_method.clone()), Err(ReadError::Corrupted(_))));
    bad_method.header.status = 0;
    assert!(matches!(decode_bson_command(bad_method), Err(ReadError::InvalidMethod(_))));
    assert!(matches!(
        decode_bson_command(frame(0, 0, "MSG", &[1, 2, 3])),
        Err(ReadError::Decode(DecodeError::Document(_)))
    ));
    assert!(matches!(
        decode_bson_command(frame(0, 0, "MSG", &[9, 0, 0, 0, 0])),
        Err(ReadError::Decode(DecodeError::Truncated))
    ));
}

#[test]
fn command_round_trip() {
    let mut document = Document::new();
    document.insert("status", 0i32);
    document.insert("host", "a");
    document.insert("port", 443i32);
    let command = BsonCommand::new_const("CHECKIN", 0, document.clone());
    let frame = encode_bson_command(41, &command).unwrap();
    let bytes = frame.encode().unwrap();
    let (read, used) = Command::decode(&bytes).unwrap();
    assert_eq!(used, bytes.len());
    assert_eq!(read, frame);
    let read = decode_bson_command(read).unwrap();
    assert_eq!(read.read_id, 41);
    assert_eq!(read.command.method, "CHECKIN");
    assert_eq!(read.command.data, document);
}

#[test]
fn write_collects_frames_and_flush_hands_them_out() {
    let mut codec = BsonCommandCodec::new(());
    assert_eq!(codec.flush(), Vec::<u8>::new());
    codec.write(0, &BsonCommand::new_const("CHECKIN", 0, user_id_document())).unwrap();
    codec.write(1, &BsonCommand::new_const("PING", 0, Document::new())).unwrap();
    let mut expected = frame(0, 0, "CHECKIN", &USER_ID_BYTES).encode().unwrap();
    expected.extend(frame(1, 0, "PING", &[5, 0, 0, 0, 0]).encode().unwrap());
    assert_eq!(codec.flush(), expected);
    assert_eq!(codec.flush(), Vec::<u8>::new());
}

#[test]
fn written_frame_is_exactly_these_bytes() {
    let mut codec = BsonCommandCodec::new(());
    codec.write(0, &BsonCommand::new_const("CHECKIN", 0, user_id_document())).unwrap();
    let mut expected = vec![
        0, 0, 0, 0, // id
        0, 0, // status
        b'C', b'H', b'E', b'C', b'K', b'I', b'N', 0, 0, 0, 0, // method
        0, // data_type
        17, 0, 0, 0, // data_size
    ];
    expected.extend_from_slice(&USER_ID_BYTES);
    assert_eq!(codec.flush(), expected);
}

#[test]
fn failed_write_leaves_the_buffer_alone() {
    let mut codec = BsonCommandCodec::new(());
    codec.write(0, &BsonCommand::new_const("PING", 0, Document::new())).unwrap();
    let too_long = BsonCommand::new_const("THIS_IS_TOO_LONG", 0, Document::new());
    assert!(matches!(
        codec.write(1, &too_long),
        Err(WriteError::Encode(EncodeError::MethodTooLong))
    ));
    assert_eq!(codec.flush(), frame(0, 0, "PING", &[5, 0, 0, 0, 0]).encode().unwrap());
}

#[test]
fn read_waits_for_a_whole_frame() {
    let bytes = frame(3, 0, "MSG", &USER_ID_BYTES).encode().unwrap();
    let mut codec = BsonCommandCodec::new(());
    assert_eq!(codec.wanted(), 22);
    assert!(matches!(codec.read(), Ok(None)));
    codec.feed(&bytes[..10]);
    assert_eq!(codec.wanted(), 12);
    assert!(matches!(codec.read(), Ok(None)));
    codec.feed(&bytes[10..22]);
    assert_eq!(codec.wanted(), 17);
    assert!(matches!(codec.read(), Ok(None)));
    codec.feed(&bytes[22..38]);
    assert_eq!(codec.wanted(), 1);
    assert!(matches!(codec.read(), Ok(None)));
    codec.feed(&bytes[38..]);
    assert_eq!(codec.wanted(), 0);
    let read = codec.read().unwrap().unwrap();
    assert_eq!(read.read_id, 3);
    assert_eq!(read.command.method, "MSG");
    assert_eq!(read.command.data, user_id_document());
    assert_eq!(codec.wanted(), 22);
    assert!(matches!(codec.read(), Ok(None)));
}

#[test]
fn read_takes_frames_in_the_order_they_came() {
    let mut codec = BsonCommandCodec::new(());
    let mut bytes = frame(1, 0, "A", &[5, 0, 0, 0, 0]).encode().unwrap();
    bytes.extend(frame(2, 0, "B", &USER_ID_BYTES).encode().unwrap());
    bytes.extend(&frame(3, 0, "C", &[5, 0, 0, 0, 0]).encode().unwrap()[..5]);
    codec.feed(&bytes);
    assert_eq!(codec.read().unwrap().unwrap().read_id, 1);
    assert_eq!(codec.read().unwrap().unwrap().read_id, 2);
    assert!(matches!(codec.read(), Ok(None)));
    assert_eq!(codec.wanted(), 17);
}

#[test]
fn read_frame_hands_out_the_raw_frame() {
    let sent = frame(9, 4, "MSG", &[1, 2, 3]);
    let mut codec = BsonCommandCodec::new(());
    codec.feed(&sent.encode().unwrap());
    assert_eq!(codec.read_frame().unwrap(), Some(sent));
    assert_eq!(codec.read_frame().unwrap(), None);
}

#[test]
fn a_failed_frame_is_taken_out_of_the_buffer() {
    let mut codec = BsonCommandCodec::new(());
    codec.feed(&frame(1, 1, "A", &[5, 0, 0, 0, 0]).encode().unwrap());
    codec.feed(&frame(2, 0, "B", &[0xff]).encode().unwrap());
    codec.feed(&frame(3, 0, "C", &[5, 0, 0, 0, 0]).encode().unwrap());
    assert!(matches!(codec.read(), Err(ReadError::Corrupted(rejected)) if rejected.header.id == 1));
    assert!(matches!(codec.read(), Err(ReadError::Decode(_))));
    assert_eq!(codec.read().unwrap().unwrap().read_id, 3);
}

#[test]
fn oversized_body_is_refused_and_stays() {
    let mut codec = BsonCommandCodec::new(());
    codec.feed(&Header::new(1, 0, "A", 0).unwrap().encode(MAX_DATA_SIZE + 1));
    assert!(matches!(codec.read(), Err(ReadError::OversizedBody(n)) if n == MAX_DATA_SIZE + 1));
    assert_eq!(codec.wanted(), 0);
    assert!(matches!(codec.read_frame(), Err(ReadError::OversizedBody(_))));
}

#[test]
fn codec_keeps_the_stream() {
    let mut codec = BsonCommandCodec::new(vec![1u8]);
    codec.write(0, &BsonCommand::new_const("PING", 0, Document::new())).unwrap();
    codec.feed(&[1, 2, 3]);
    assert_eq!(codec.stream(), &vec![1]);
    codec.stream_mut().push(2);
    assert_eq!(codec.wanted(), 19);
    assert_eq!(codec.into_inner(), vec![1, 2]);
}
