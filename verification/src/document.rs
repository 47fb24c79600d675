//! BSON documents, which the `bson` crate parses and writes.

use crate::bytes::{read_i32, signed_u32, u32_of_le};
use crate::nesting::{nesting_is_bounded, nests_within};
use bson::Document;
use vstd::prelude::*;

verus! {

/// `bson::Document`, of which nothing is known here but what
/// [`document_of_bytes`] and [`bytes_of_document`] say.
#[verifier::external_type_specification]
#[verifier::external_body]
pub struct ExDocument(bson::Document);

/// `bson::de::Error`, carried through unread.
#[verifier::external_type_specification]
#[verifier::external_body]
pub struct ExDocumentReadError(bson::de::Error);

/// `bson::ser::Error`, carried through unread.
#[verifier::external_type_specification]
#[verifier::external_body]
pub struct ExDocumentWriteError(bson::ser::Error);

/// The document that `bson::Document::from_reader` reads from `bytes`, or
/// `None` where it reports an error.
pub uninterp spec fn document_of_bytes(bytes: Seq<u8>) -> Option<Document>;

/// The bytes that `bson::Document::to_writer` writes for `document`, or
/// `None` where it reports an error.
pub uninterp spec fn bytes_of_document(document: Document) -> Option<Seq<u8>>;

/// Whether `bytes` start with a length, as every BSON document does, that
/// is greater than their own number.
pub open spec fn announces_more(bytes: Seq<u8>) -> bool {
    bytes.len() >= 4 && signed_u32(u32_of_le(bytes[0], bytes[1], bytes[2], bytes[3]))
        > bytes.len()
}

/// `bson::Document::from_reader`, reading from a slice: the document it
/// reads, which is the same for the same bytes, or its error. The reader sets
/// aside as much memory as the first four bytes announce before it reads on,
/// and it descends once for every document, array and scope that it finds
/// inside another. So it is only called on bytes that do not announce more
/// than there is and that never have more than
/// [`MAX_NESTING`](crate::nesting::MAX_NESTING) documents open at once.
#[verifier::external_body]
fn read_document(bytes: &[u8]) -> (document: Result<Document, bson::de::Error>)
    requires
        !announces_more(bytes@),
        nests_within(bytes@),
    ensures
        document is Ok <==> document_of_bytes(bytes@) is Some,
        document is Ok ==> document_of_bytes(bytes@) == Some(document->Ok_0),
{
    Document::from_reader(bytes)
}

/// `bson::Document::to_writer`, writing into an empty vector: the bytes it
/// writes, which are the same for the same document, or its error.
#[verifier::external_body]
pub(crate) fn write_document(document: &Document) -> (bytes: Result<Vec<u8>, bson::ser::Error>)
    ensures
        bytes is Ok <==> bytes_of_document(*document) is Some,
        bytes is Ok ==> bytes_of_document(*document) == Some(bytes->Ok_0@),
{
    let mut bytes = Vec::new();
    document.to_writer(&mut bytes)?;
    Ok(bytes)
}

/// Why bytes were not read as a document.
#[derive(Debug)]
pub enum DecodeError {
    /// The bytes announce a document longer than they are.
    Truncated,
    /// The bytes nest documents deeper than
    /// [`MAX_NESTING`](crate::nesting::MAX_NESTING).
    TooDeep,
    /// The parser's own complaint.
    Document(bson::de::Error),
}

/// Whether the parser is asked at all: the bytes announce no more than there
/// is, and they stay within [`MAX_NESTING`](crate::nesting::MAX_NESTING).
pub open spec fn readable(bytes: Seq<u8>) -> bool {
    !announces_more(bytes) && nests_within(bytes)
}

/// Reads `bytes` as one BSON document. Bytes that announce more than there
/// is, and bytes that nest too deep, are refused before the parser sees them.
pub fn decode_document(bytes: &[u8]) -> (document: Result<Document, DecodeError>)
    ensures
        match document {
            Ok(document) => readable(bytes@) && document_of_bytes(bytes@) == Some(document),
            Err(DecodeError::Truncated) => announces_more(bytes@),
            Err(DecodeError::TooDeep) => !announces_more(bytes@) && !nests_within(bytes@),
            Err(DecodeError::Document(_)) => readable(bytes@) && document_of_bytes(bytes@)
                is None,
        },
{
    if bytes.len() >= 4 {
        let announced = read_i32(bytes[0], bytes[1], bytes[2], bytes[3]);
        if announced >= 0 && announced as u32 as usize > bytes.len() {
            return Err(DecodeError::Truncated);
        }
    }
    if !nesting_is_bounded(bytes) {
        return Err(DecodeError::TooDeep);
    }
    match read_document(bytes) {
        Ok(document) => Ok(document),
        Err(error) => Err(DecodeError::Document(error)),
    }
}

} // verus!
