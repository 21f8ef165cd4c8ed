//! What can go wrong while records travel over the pipe.

use vstd::prelude::*;

verus! {

/// The class of a failure, as an operating system reports it for streams.
#[derive(Clone, Copy, Debug, PartialEq, Eq, Structural)]
pub enum ErrorKind {
    /// The stream ended in the middle of something.
    UnexpectedEof,
    /// The bytes that were read break the format.
    InvalidData,
    /// The bytes that were to be written break the format.
    InvalidInput,
    /// A failure below the framing: the payload is not what it should be.
    Other,
}

/// A failure of the record framing.
#[derive(Clone, Copy, Debug, PartialEq, Eq, Structural)]
pub enum FramingError {
    /// The stream ended inside a chunk.
    Truncated,
    /// A chunk that was read announces a length outside the allowed range.
    ChunkSize,
    /// A chunk that was to be written has a length outside the allowed range.
    PayloadSize,
    /// The stream ended after a chunk that was not the last of its record.
    EndedEarly,
    /// A new record starts before the current one has ended.
    ChunkSequence,
    /// The first chunk of a record is one that can only follow another.
    StrayContinuation,
    /// A record without a payload was to be written.
    EmptyRecord,
}

impl FramingError {
    /// The class of this failure.
    pub open spec fn kind_spec(self) -> ErrorKind {
        match self {
            FramingError::Truncated => ErrorKind::UnexpectedEof,
            FramingError::ChunkSize => ErrorKind::InvalidData,
            FramingError::PayloadSize => ErrorKind::InvalidInput,
            FramingError::EndedEarly => ErrorKind::UnexpectedEof,
            FramingError::ChunkSequence => ErrorKind::InvalidData,
            FramingError::StrayContinuation => ErrorKind::InvalidData,
            FramingError::EmptyRecord => ErrorKind::InvalidData,
        }
    }

    /// Returns the class of this failure.
    pub fn kind(self) -> (kind: ErrorKind)
        ensures
            kind == self.kind_spec(),
    {
        match self {
            FramingError::Truncated => ErrorKind::UnexpectedEof,
            FramingError::ChunkSize => ErrorKind::InvalidData,
            FramingError::PayloadSize => ErrorKind::InvalidInput,
            FramingError::EndedEarly => ErrorKind::UnexpectedEof,
            FramingError::ChunkSequence => ErrorKind::InvalidData,
            FramingError::StrayContinuation => ErrorKind::InvalidData,
            FramingError::EmptyRecord => ErrorKind::InvalidData,
        }
    }

    /// The text that describes this failure.
    pub open spec fn message_spec(self) -> Seq<char> {
        match self {
            FramingError::Truncated => "failed to fill whole buffer"@,
            FramingError::ChunkSize => "companion physical chunk has an invalid size"@,
            FramingError::PayloadSize => "companion physical chunk has an invalid size"@,
            FramingError::EndedEarly => "companion record ended before its final chunk"@,
            FramingError::ChunkSequence => "companion record contains an invalid chunk sequence"@,
            FramingError::StrayContinuation => "companion record starts with a continuation chunk"@,
            FramingError::EmptyRecord => "companion record cannot be empty"@,
        }
    }

    /// Returns the text that describes this failure.
    pub fn message(self) -> (message: &'static str)
        ensures
            message@ == self.message_spec(),
    {
        match self {
            FramingError::Truncated => "failed to fill whole buffer",
            FramingError::ChunkSize => "companion physical chunk has an invalid size",
            FramingError::PayloadSize => "companion physical chunk has an invalid size",
            FramingError::EndedEarly => "companion record ended before its final chunk",
            FramingError::ChunkSequence => "companion record contains an invalid chunk sequence",
            FramingError::StrayContinuation => "companion record starts with a continuation chunk",
            FramingError::EmptyRecord => "companion record cannot be empty",
        }
    }
}

} // verus!
