//! Physical chunks: the pieces that a record is cut into.
//!
//! A chunk is a four-byte little-endian header followed by its payload. The
//! two top bits of the header say where in its record the chunk stands, the
//! other thirty bits hold the length of the payload.

use vstd::prelude::*;
use vstd::slice::{slice_subrange, slice_to_vec};

use crate::error::FramingError;

verus! {

/// The longest payload that one chunk can carry.
pub const MAX_PHYSICAL_CHUNK_BYTES: usize = 1024 * 1024;

/// The bytes that a chunk's header takes.
pub const CHUNK_HEADER_BYTES: usize = 4;

/// How far the chunk kind is shifted in a header.
pub const CHUNK_KIND_SHIFT: u32 = 30;

/// The header bits that hold the payload's length.
pub const CHUNK_LENGTH_MASK: u32 = 0x3fff_ffff;

/// Where in its record a chunk stands.
#[derive(Clone, Copy, Debug, PartialEq, Eq, Structural)]
pub enum ChunkKind {
    /// The only chunk of its record.
    Single,
    /// The first of several.
    Start,
    /// Neither the first nor the last.
    Continue,
    /// The last of several.
    End,
}

/// What one header can count to with its length bits, plus one.
pub open spec fn length_range() -> int {
    0x4000_0000
}

/// Whether a chunk can carry a payload of this length.
pub open spec fn valid_chunk_length(length: int) -> bool {
    1 <= length <= MAX_PHYSICAL_CHUNK_BYTES
}

impl ChunkKind {
    /// The number that stands for this kind in a header.
    pub open spec fn code_spec(self) -> int {
        match self {
            ChunkKind::Single => 0,
            ChunkKind::Start => 1,
            ChunkKind::Continue => 2,
            ChunkKind::End => 3,
        }
    }

    /// The kind that a header announces.
    pub open spec fn of_header(header: int) -> ChunkKind {
        let code = header / length_range();
        if code == 0 {
            ChunkKind::Single
        } else if code == 1 {
            ChunkKind::Start
        } else if code == 2 {
            ChunkKind::Continue
        } else {
            ChunkKind::End
        }
    }

    /// Returns the number that stands for this kind in a header.
    pub fn code(self) -> (code: u32)
        ensures
            code == self.code_spec(),
    {
        match self {
            ChunkKind::Single => 0,
            ChunkKind::Start => 1,
            ChunkKind::Continue => 2,
            ChunkKind::End => 3,
        }
    }

    /// Reads the kind out of a header. Two bits hold exactly the four kinds,
    /// so every header has one.
    pub fn decode(header: u32) -> (kind: Result<Self, FramingError>)
        ensures
            kind == Ok::<ChunkKind, FramingError>(ChunkKind::of_header(header as int)),
    {
        let code: u32 = header >> CHUNK_KIND_SHIFT;
        assert(header >> 30 == header / 0x4000_0000) by (bit_vector);
        if code == 0 {
            Ok(ChunkKind::Single)
        } else if code == 1 {
            Ok(ChunkKind::Start)
        } else if code == 2 {
            Ok(ChunkKind::Continue)
        } else {
            Ok(ChunkKind::End)
        }
    }
}

/// The header of a chunk of this kind with a payload of this length.
pub open spec fn header_value(kind: ChunkKind, length: int) -> int {
    kind.code_spec() * length_range() + length
}

/// The four bytes of a header, the least significant first.
pub open spec fn header_bytes(header: int) -> Seq<u8> {
    seq![
        (header % 256) as u8,
        (header / 256 % 256) as u8,
        (header / 65536 % 256) as u8,
        (header / 16777216 % 256) as u8,
    ]
}

/// The header that the first four bytes of a stream spell.
pub open spec fn header_at(input: Seq<u8>) -> int {
    input[0] + 256 * input[1] + 65536 * input[2] + 16777216 * input[3]
}

/// The bytes of a chunk on the wire.
pub open spec fn chunk_bytes(kind: ChunkKind, payload: Seq<u8>) -> Seq<u8> {
    header_bytes(header_value(kind, payload.len() as int)) + payload
}

/// The chunk that a stream starts with: none at the end of the stream.
pub open spec fn chunk_at(input: Seq<u8>) -> Result<Option<(ChunkKind, Seq<u8>)>, FramingError> {
    if input.len() == 0 {
        Ok(None)
    } else if input.len() < CHUNK_HEADER_BYTES {
        Err(FramingError::Truncated)
    } else {
        let header = header_at(input);
        let length = header % length_range();
        if !valid_chunk_length(length) {
            Err(FramingError::ChunkSize)
        } else if input.len() < CHUNK_HEADER_BYTES + length {
            Err(FramingError::Truncated)
        } else {
            Ok(Some((ChunkKind::of_header(header), input.subrange(4, 4 + length))))
        }
    }
}

/// What is left of a stream once its first chunk has been read. A read that
/// runs out of bytes takes all of them, one that meets a bad length only the
/// header.
pub open spec fn chunk_rest(input: Seq<u8>) -> Seq<u8> {
    match chunk_at(input) {
        Ok(None) => input,
        Ok(Some((_, payload))) => input.skip(4 + payload.len() as int),
        Err(FramingError::ChunkSize) => input.skip(4),
        Err(_) => Seq::empty(),
    }
}

/// Puts the four bytes of a header together.
pub fn header_from_bytes(bytes: &[u8]) -> (header: u32)
    requires
        bytes@.len() >= CHUNK_HEADER_BYTES,
    ensures
        header == header_at(bytes@),
{
    bytes[0] as u32 + 256 * (bytes[1] as u32) + 65536 * (bytes[2] as u32) + 16777216 * (
    bytes[3] as u32)
}

/// Reads the kind and the payload length out of a header, or refuses the
/// length.
pub fn decode_header(header: u32) -> (decoded: Result<(ChunkKind, usize), FramingError>)
    ensures
        match decoded {
            Ok((kind, length)) => {
                &&& length == header as int % length_range()
                &&& valid_chunk_length(length as int)
                &&& kind == ChunkKind::of_header(header as int)
            },
            Err(error) => {
                &&& error == FramingError::ChunkSize
                &&& !valid_chunk_length(header as int % length_range())
            },
        },
{
    let kind = match ChunkKind::decode(header) {
        Ok(kind) => kind,
        Err(error) => { return Err(error); },
    };
    let length: usize = (header & CHUNK_LENGTH_MASK) as usize;
    assert(header & 0x3fff_ffff == header % 0x4000_0000) by (bit_vector);
    if length < 1 || length > MAX_PHYSICAL_CHUNK_BYTES {
        return Err(FramingError::ChunkSize);
    }
    Ok((kind, length))
}

/// Reads one chunk off the front of `reader`, or nothing at the end of the
/// stream.
pub fn read_chunk(reader: &mut &[u8]) -> (chunk: Result<Option<(ChunkKind, Vec<u8>)>, FramingError>)
    ensures
        match chunk_at(old(reader)@) {
            Ok(None) => chunk == Ok::<Option<(ChunkKind, Vec<u8>)>, FramingError>(None),
            Ok(Some((kind, payload))) => {
                &&& chunk matches Ok(Some(read))
                &&& read.0 == kind
                &&& read.1@ == payload
            },
            Err(error) => chunk == Err::<Option<(ChunkKind, Vec<u8>)>, FramingError>(error),
        },
        final(reader)@ == chunk_rest(old(reader)@),
{
    let input: &[u8] = *reader;
    let available: usize = input.len();
    if available == 0 {
        return Ok(None);
    }
    if available < CHUNK_HEADER_BYTES {
        *reader = slice_subrange(input, available, available);
        return Err(FramingError::Truncated);
    }
    let header: u32 = header_from_bytes(input);
    let body: &[u8] = slice_subrange(input, CHUNK_HEADER_BYTES, available);
    let (kind, length) = match decode_header(header) {
        Ok(decoded) => decoded,
        Err(error) => {
            *reader = body;
            return Err(error);
        },
    };
    if available - CHUNK_HEADER_BYTES < length {
        *reader = slice_subrange(input, available, available);
        return Err(FramingError::Truncated);
    }
    let payload: Vec<u8> = slice_to_vec(slice_subrange(body, 0, length));
    *reader = slice_subrange(body, length, body.len());
    assert(payload@ =~= input@.subrange(4, 4 + length));
    Ok(Some((kind, payload)))
}

/// Appends one chunk to `writer`, or refuses a payload that no chunk can
/// carry.
pub fn write_chunk(writer: &mut Vec<u8>, kind: ChunkKind, payload: &[u8]) -> (written: Result<
    (),
    FramingError,
>)
    ensures
        valid_chunk_length(payload@.len() as int) ==> {
            &&& written == Ok::<(), FramingError>(())
            &&& final(writer)@ == old(writer)@ + chunk_bytes(kind, payload@)
        },
        !valid_chunk_length(payload@.len() as int) ==> {
            &&& written == Err::<(), FramingError>(FramingError::PayloadSize)
            &&& final(writer)@ == old(writer)@
        },
{
    let length: usize = payload.len();
    if length < 1 || length > MAX_PHYSICAL_CHUNK_BYTES {
        return Err(FramingError::PayloadSize);
    }
    let code: u32 = kind.code();
    let header: u32 = (code << CHUNK_KIND_SHIFT) | length as u32;
    assert(header == code * 0x4000_0000 + length) by {
        let small: u32 = length as u32;
        assert(code <= 3 && small <= 0x10_0000 ==> (code << 30) | small == code * 0x4000_0000
            + small) by (bit_vector);
    }
    writer.push((header % 256) as u8);
    writer.push((header / 256 % 256) as u8);
    writer.push((header / 65536 % 256) as u8);
    writer.push((header / 16777216 % 256) as u8);
    writer.extend_from_slice(payload);
    assert(writer@ =~= old(writer)@ + chunk_bytes(kind, payload@));
    Ok(())
}

} // verus!
