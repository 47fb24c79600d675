use bson::{Bson, Document};
use std::io::ErrorKind;
use talk_loco_client::command::codec::{EncodeError, ReadError, StreamError, WriteError};
use talk_loco_client::command::session::BsonCommandSession;
use talk_loco_client::command::BsonCommand;
use talk_loco_client::frame::{Command, Header};

fn body(pairs: &[(&str, Bson)]) -> Document {
    let mut document = Document::new();
    for (key, value) in pairs {
        document.insert(*key, value.clone());
    }
    document
}

fn bytes(document: &Document) -> Vec<u8> {
    let mut bytes = Vec::new();
    document.to_writer(&mut bytes).unwrap();
    bytes
}

/// What the server puts on the wire.
fn server_frame(id: i32, status: i16, method: &str, document: &Document) -> Vec<u8> {
    Command { header: Header::new(id, status, method, 0).unwrap(), data: bytes(document) }
        .encode()
        .unwrap()
}

/// The server's end of a loopback: it reads the requests off the wire.
fn server_reads(wire: &[u8]) -> Vec<Command> {
    let mut frames = Vec::new();
    let mut rest = wire;
    while let Some((frame, used)) = Command::decode(rest) {
        frames.push(frame);
        rest = &rest[used..];
    }
    assert!(rest.is_empty());
    frames
}

fn checkin() -> BsonCommand<Document> {
    BsonCommand::new_const("CHECKIN", 0, body(&[("userId", Bson::Int32(1))]))
}

#[test]
fn simple_request_and_response() {
    let mut session = BsonCommandSession::new(());
    let id = session.request(&checkin()).unwrap();
    assert_eq!(id, 0);

    let seen = server_reads(&session.flush());
    assert_eq!(seen.len(), 1);
    assert_eq!(seen[0].header.id, 0);
    assert_eq!(seen[0].header.status, 0);
    assert_eq!(seen[0].header.method().unwrap(), "CHECKIN");
    assert_eq!(seen[0].header.data_type, 0);
    assert_eq!(seen[0].data, bytes(&body(&[("userId", Bson::Int32(1))])));

    let echoed = body(&[
        ("status", Bson::Int32(0)),
        ("host", Bson::String(String::from("a"))),
        ("port", Bson::Int32(443)),
    ]);
    session.feed(&server_frame(0, 0, "CHECKIN", &echoed));
    let answer = session.response(id).unwrap().unwrap();
    assert_eq!(answer.method, "CHECKIN");
    assert_eq!(answer.data_type, 0);
    assert_eq!(answer.data, echoed);
}

#[test]
fn interleaved_broadcast() {
    let mut session = BsonCommandSession::new(());
    let id = session.request(&checkin()).unwrap();
    session.flush();

    let message = body(&[("text", Bson::String(String::from("hi")))]);
    let answer = body(&[("status", Bson::Int32(0))]);
    session.feed(&server_frame(7000, 0, "MSG", &message));
    // The waiter reads on past the broadcast and still has nothing.
    assert!(matches!(session.response(id), Ok(None)));
    session.feed(&server_frame(0, 0, "CHECKIN", &answer));

    let broadcast = session.read().unwrap().unwrap();
    assert_eq!(broadcast.read_id, 7000);
    assert_eq!(broadcast.command.method, "MSG");
    assert_eq!(broadcast.command.data, message);

    assert_eq!(session.response(id).unwrap().unwrap().data, answer);
    assert!(matches!(session.read(), Ok(None)));
}

#[test]
fn out_of_order_responses() {
    let mut session = BsonCommandSession::new(());
    let a = session.request(&BsonCommand::new_const("A", 0, Document::new())).unwrap();
    let b = session.request(&BsonCommand::new_const("B", 0, Document::new())).unwrap();
    assert_eq!((a, b), (0, 1));

    let to_a = body(&[("for", Bson::String(String::from("a")))]);
    let to_b = body(&[("for", Bson::String(String::from("b")))]);
    session.feed(&server_frame(1, 0, "B", &to_b));
    session.feed(&server_frame(0, 0, "A", &to_a));

    let answer_a = session.response(a).unwrap().unwrap();
    assert_eq!(answer_a.method, "A");
    assert_eq!(answer_a.data, to_a);
    let answer_b = session.response(b).unwrap().unwrap();
    assert_eq!(answer_b.method, "B");
    assert_eq!(answer_b.data, to_b);

    assert!(matches!(session.read(), Ok(None)));
}

#[test]
fn corrupted_frame() {
    let mut session = BsonCommandSession::new(());
    let first = session.request(&checkin()).unwrap();
    session.feed(&server_frame(0, 1, "CHECKIN", &Document::new()));
    match session.response(first) {
        Err(ReadError::Corrupted(rejected)) => {
            assert_eq!(rejected.header.id, 0);
            assert_eq!(rejected.header.status, 1);
        },
        other => panic!("{:?}", other),
    }

    let second = session.request(&checkin()).unwrap();
    assert_eq!(second, 1);
    let answer = body(&[("status", Bson::Int32(0))]);
    session.feed(&server_frame(1, 0, "CHECKIN", &answer));
    assert_eq!(session.response(second).unwrap().unwrap().data, answer);
}

#[test]
fn transport_error() {
    let mut session = BsonCommandSession::new(());
    let id = session.request(&checkin()).unwrap();
    session.flush();
    assert!(matches!(session.response(id), Ok(None)));

    // The server closes the socket: the read that was due comes back short.
    let closed = StreamError::Io(ErrorKind::UnexpectedEof);
    session.fail(closed);

    assert!(matches!(session.response(id), Err(ReadError::Stream(error)) if error == closed));
    assert!(matches!(session.request(&checkin()), Err(WriteError::Codec(error)) if error == closed));
    // Nothing more is asked of the transport.
    assert_eq!(session.flush(), Vec::<u8>::new());
    assert_eq!(session.wanted(), 0);
}

#[test]
fn oversized_method() {
    let mut session = BsonCommandSession::new(());
    let command = BsonCommand::new_const("THIS_IS_TOO_LONG", 0, Document::new());
    assert!(matches!(
        session.request(&command),
        Err(WriteError::Encode(EncodeError::MethodTooLong))
    ));
    assert_eq!(session.flush(), Vec::<u8>::new());
}
