use bson::spec::BinarySubtype;
use bson::{Binary, Bson, Document, JavaScriptCodeWithScope, Regex, Timestamp};
use talk_loco_client::command::codec::{decode_bson_command, ReadError};
use talk_loco_client::command::session::BsonCommandSession;
use talk_loco_client::command::BsonCommand;
use talk_loco_client::document::{decode_document, DecodeError};
use talk_loco_client::frame::{Command, Header};
use talk_loco_client::nesting::{nesting_is_bounded, MAX_NESTING};

fn bytes(document: &Document) -> Vec<u8> {
    let mut bytes = Vec::new();
    document.to_writer(&mut bytes).unwrap();
    bytes
}

/// A document with so many documents open at its innermost place, itself
/// included, and `first` in front of the others in the outermost.
fn nested_documents(open: usize, first: Document) -> Document {
    let mut document = Document::new();
    for level in 1..open {
        let mut outer = if level == open - 1 { first.clone() } else { Document::new() };
        outer.insert("d", document);
        document = outer;
    }
    document
}

fn nested_arrays(open: usize) -> Document {
    let mut array = Bson::Array(Vec::new());
    for _ in 2..open {
        array = Bson::Array(vec![Bson::Int32(1), array]);
    }
    let mut document = Document::new();
    document.insert("a", array);
    document
}

fn nested_scopes(open: usize) -> Document {
    let mut document = Document::new();
    for _ in 1..open {
        let mut outer = Document::new();
        outer.insert(
            "s",
            Bson::JavaScriptCodeWithScope(JavaScriptCodeWithScope {
                code: String::from("f()"),
                scope: document,
            }),
        );
        document = outer;
    }
    document
}

/// One element of every kind that the `bson` crate can build.
fn every_kind() -> Document {
    let mut document = Document::new();
    document.insert("double", Bson::Double(1.5));
    document.insert("string", "text with \0 inside");
    document.insert("empty", "");
    document.insert("document", Document::new());
    document.insert("array", vec![Bson::Int32(3), Bson::Int32(4)]);
    document.insert(
        "binary",
        Bson::Binary(Binary { subtype: BinarySubtype::Generic, bytes: vec![3, 3, 0, 4, 5, 0, 0, 0] }),
    );
    document.insert("nothing", Bson::Binary(Binary { subtype: BinarySubtype::Generic, bytes: vec![] }));
    document.insert("undefined", Bson::Undefined);
    document.insert("id", Bson::ObjectId(bson::oid::ObjectId::from_bytes([3; 12])));
    document.insert("bool", true);
    document.insert("date", Bson::DateTime(bson::DateTime::from_millis(1_600_000_000_000)));
    document.insert("null", Bson::Null);
    document.insert(
        "regex",
        Bson::RegularExpression(Regex { pattern: String::from("a.*b"), options: String::from("i") }),
    );
    document.insert("code", Bson::JavaScriptCode(String::from("f()")));
    document.insert("symbol", Bson::Symbol(String::from("sym")));
    document.insert(
        "scoped",
        Bson::JavaScriptCodeWithScope(JavaScriptCodeWithScope {
            code: String::from("g()"),
            scope: Document::new(),
        }),
    );
    document.insert("int", 3i32);
    document.insert("stamp", Bson::Timestamp(Timestamp { time: 3, increment: 4 }));
    document.insert("long", 3i64);
    document.insert("decimal", Bson::Decimal128(bson::Decimal128::from_bytes([3; 16])));
    document.insert("max", Bson::MaxKey);
    document.insert("min", Bson::MinKey);
    document
}

/// Documents inside documents, written by hand: 7 bytes a level.
fn nested_bytes(open: usize) -> Vec<u8> {
    let mut bytes = Vec::with_capacity(7 * open);
    for level in (1..open).rev() {
        bytes.extend_from_slice(&((5 + 7 * level) as u32).to_le_bytes());
        bytes.extend_from_slice(&[0x03, 0]);
    }
    bytes.extend_from_slice(&[5, 0, 0, 0]);
    bytes.resize(bytes.len() + open, 0);
    bytes
}

#[test]
fn flat_documents_are_within_the_bound() {
    assert!(nesting_is_bounded(&bytes(&Document::new())));
    assert!(nesting_is_bounded(&bytes(&every_kind())));
    assert_eq!(decode_document(&bytes(&every_kind())).unwrap(), every_kind());
}

#[test]
fn bytes_that_are_no_document_open_nothing() {
    assert!(nesting_is_bounded(&[]));
    assert!(nesting_is_bounded(&[1, 2, 3]));
    assert!(nesting_is_bounded(&[4, 0, 0, 0]));
    assert!(nesting_is_bounded(&[0xff; 64]));
    assert!(nesting_is_bounded(&[9, 0, 0, 0, 0x63, b'a', 0, 0, 0]));
}

#[test]
fn documents_nest_up_to_the_bound() {
    let deepest = nested_documents(MAX_NESTING, Document::new());
    assert!(nesting_is_bounded(&bytes(&deepest)));
    assert_eq!(decode_document(&bytes(&deepest)).unwrap(), deepest);
}

#[test]
fn documents_nested_beyond_the_bound_are_refused() {
    let too_deep = bytes(&nested_documents(MAX_NESTING + 1, Document::new()));
    assert!(!nesting_is_bounded(&too_deep));
    assert!(matches!(decode_document(&too_deep), Err(DecodeError::TooDeep)));
}

#[test]
fn arrays_count_as_documents() {
    let deepest = nested_arrays(MAX_NESTING);
    assert_eq!(decode_document(&bytes(&deepest)).unwrap(), deepest);
    let too_deep = bytes(&nested_arrays(MAX_NESTING + 1));
    assert!(matches!(decode_document(&too_deep), Err(DecodeError::TooDeep)));
}

#[test]
fn scopes_count_as_documents() {
    let deepest = nested_scopes(MAX_NESTING);
    assert_eq!(decode_document(&bytes(&deepest)).unwrap(), deepest);
    let too_deep = bytes(&nested_scopes(MAX_NESTING + 1));
    assert!(matches!(decode_document(&too_deep), Err(DecodeError::TooDeep)));
}

#[test]
fn the_walk_passes_over_every_kind_of_element() {
    // The deep part stands behind one element of each kind: a walk that
    // took a wrong size for one of them would not get there.
    let deepest = nested_documents(MAX_NESTING, every_kind());
    assert_eq!(decode_document(&bytes(&deepest)).unwrap(), deepest);
    let too_deep = bytes(&nested_documents(MAX_NESTING + 1, every_kind()));
    assert!(matches!(decode_document(&too_deep), Err(DecodeError::TooDeep)));
}

#[test]
fn the_walk_passes_over_a_database_pointer() {
    // No constructor in the `bson` crate builds one; these are its bytes.
    let deep = nested_bytes(MAX_NESTING);
    let mut element = vec![0x0c, b'p', 0, 2, 0, 0, 0, b'n', 0];
    element.extend_from_slice(&[7; 12]);
    let mut document = ((4 + element.len() + 2 + deep.len() + 1) as u32).to_le_bytes().to_vec();
    document.extend_from_slice(&element);
    document.extend_from_slice(&[0x03, 0]);
    document.extend_from_slice(&deep);
    document.push(0);
    assert!(!nesting_is_bounded(&document));
    let deep = nested_bytes(MAX_NESTING - 1);
    let mut document = ((4 + element.len() + 2 + deep.len() + 1) as u32).to_le_bytes().to_vec();
    document.extend_from_slice(&element);
    document.extend_from_slice(&[0x03, 0]);
    document.extend_from_slice(&deep);
    document.push(0);
    assert!(nesting_is_bounded(&document));
    assert!(decode_document(&document).is_ok());
}

#[test]
fn hand_written_nesting_is_what_the_bson_crate_reads() {
    let written = nested_bytes(MAX_NESTING);
    let read = decode_document(&written).unwrap();
    let mut expected = Document::new();
    for _ in 1..MAX_NESTING {
        let mut outer = Document::new();
        outer.insert("", expected);
        expected = outer;
    }
    assert_eq!(read, expected);
    assert!(matches!(decode_document(&nested_bytes(MAX_NESTING + 1)), Err(DecodeError::TooDeep)));
}

#[test]
fn a_body_of_millions_of_levels_is_refused() {
    // As deep as a body within the cap can go.
    let open = (16 * 1024 * 1024 - 5) / 7 + 1;
    let body = nested_bytes(open);
    assert!(body.len() <= 16 * 1024 * 1024);
    assert!(matches!(decode_document(&body), Err(DecodeError::TooDeep)));
    let frame = Command { header: Header::new(0, 0, "MSG", 0).unwrap(), data: body };
    assert!(matches!(
        decode_bson_command(frame),
        Err(ReadError::Decode(DecodeError::TooDeep))
    ));
}

#[test]
fn depth_that_only_shows_in_broken_bytes_is_still_counted() {
    // The innermost document is cut short: the walk has come past the bound
    // before it gets there.
    let mut broken = nested_bytes(MAX_NESTING + 50);
    let inner = 6 * (MAX_NESTING + 49);
    broken[inner] = 99;
    assert!(matches!(decode_document(&broken), Err(DecodeError::TooDeep)));
    // Broken above the bound: the parser is asked and complains.
    let mut broken = nested_bytes(MAX_NESTING + 50);
    broken[6] = 99;
    assert!(matches!(decode_document(&broken), Err(DecodeError::Document(_))));
}

#[test]
fn a_session_refuses_an_answer_that_nests_too_deep() {
    let mut session = BsonCommandSession::new(());
    let id = session.request(&BsonCommand::new_const("PING", 0, Document::new())).unwrap();
    let deep = Command {
        header: Header::new(id, 0, "PING", 0).unwrap(),
        data: nested_bytes(MAX_NESTING + 1),
    };
    session.feed(&deep.encode().unwrap());
    assert!(matches!(
        session.response(id),
        Err(ReadError::Decode(DecodeError::TooDeep))
    ));
    assert!(matches!(session.response(id), Err(ReadError::NotRequested(_))));
}
