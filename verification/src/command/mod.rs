//! Commands: a method name, a type tag and a payload.

pub mod codec;
pub mod laws;
pub mod manager;
pub mod model;
pub mod pending;
pub mod session;

use vstd::prelude::*;

verus! {

/// A command with its payload in the form `T`: a document on its way to or
/// from the wire, or a record once a document has been read into one.
#[derive(Debug, Clone)]
pub struct BsonCommand<T> {
    /// Name of the remote procedure, at most 11 bytes on the wire.
    pub method: String,
    /// How the payload is encoded; carried through untouched.
    pub data_type: i8,
    pub data: T,
}

impl<T> BsonCommand<T> {
    /// A command with an owned method name.
    pub fn new(method: String, data_type: i8, data: T) -> (command: Self)
        ensures
            command.method == method,
            command.data_type == data_type,
            command.data == data,
    {
        Self { method, data_type, data }
    }

    /// A command whose method name is a string literal.
    pub fn new_const(method: &'static str, data_type: i8, data: T) -> (command: Self)
        ensures
            command.method@ == method@,
            command.data_type == data_type,
            command.data == data,
    {
        Self { method: method.to_owned(), data_type, data }
    }
}

/// A command that arrived, with the request id it carried.
#[derive(Debug, Clone)]
pub struct ReadBsonCommand<T> {
    pub read_id: i32,
    pub command: BsonCommand<T>,
}

} // verus!
