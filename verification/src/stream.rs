//! A limit on how much is handed to a stream in one write.

use vstd::prelude::*;

verus! {

/// A stream together with the largest number of bytes to pass to it in a
/// single write. Longer buffers go out in pieces: the writer offers the first
/// [`chunk_len`](ChunkedWriteStream::chunk_len) bytes and reports a short write.
#[derive(Debug, Clone)]
pub struct ChunkedWriteStream<S> {
    stream: S,
    max_size: usize,
}

impl<S> ChunkedWriteStream<S> {
    /// The stream inside.
    pub closed spec fn stream(&self) -> S {
        self.stream
    }

    /// The limit this was made with.
    pub closed spec fn limit(&self) -> usize {
        self.max_size
    }

    pub fn new(stream: S, max_size: usize) -> (chunked: Self)
        ensures
            chunked.stream() == stream,
            chunked.limit() == max_size,
    {
        Self { stream, max_size }
    }

    pub fn inner(&self) -> (stream: &S)
        ensures
            *stream == self.stream(),
    {
        &self.stream
    }

    /// The stream, to write to or read from. The limit stays as it is.
    pub fn inner_mut(&mut self) -> (stream: &mut S)
        ensures
            *stream == old(self).stream(),
            final(self).stream() == *final(stream),
            final(self).limit() == old(self).limit(),
    {
        &mut self.stream
    }

    pub fn unwrap(self) -> (stream: S)
        ensures
            stream == self.stream(),
    {
        self.stream
    }

    /// The limit this was made with.
    pub fn max_size(&self) -> (max_size: usize)
        ensures
            max_size == self.limit(),
    {
        self.max_size
    }

    /// How many bytes of a buffer of `len` bytes go out in the next write:
    /// all of them, unless the limit is smaller.
    pub fn chunk_len(&self, len: usize) -> (chunk: usize)
        ensures
            chunk == if len <= self.limit() { len } else { self.limit() },
    {
        if len <= self.max_size {
            len
        } else {
            self.max_size
        }
    }
}

} // verus!
