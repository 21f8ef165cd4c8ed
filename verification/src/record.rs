//! Records: payloads of any length, cut into physical chunks.
//!
//! A payload that fits one chunk travels as a single one. A longer one is cut
//! into pieces of the largest size, of which the last may be shorter.

use vstd::prelude::*;
use vstd::slice::slice_subrange;

use crate::chunk;
use crate::chunk::{read_chunk, write_chunk, ChunkKind, MAX_PHYSICAL_CHUNK_BYTES};
use crate::error::FramingError;

verus! {

/// The number of chunks that a payload of this length is cut into.
pub open spec fn chunk_count(length: int) -> int {
    (length + 1048575) / 1048576
}

/// Where in a payload the chunk at `index` starts: each chunk but the last
/// carries as much as a chunk can.
pub open spec fn chunk_start(index: int) -> int {
    index * 1048576
}

/// The kind of the chunk at `index` of a record with `count` chunks.
pub open spec fn kind_at(index: int, count: int) -> ChunkKind {
    if count == 1 {
        ChunkKind::Single
    } else if index == 0 {
        ChunkKind::Start
    } else if index + 1 == count {
        ChunkKind::End
    } else {
        ChunkKind::Continue
    }
}

/// Where in a payload of this length the chunk at `index` ends.
pub open spec fn chunk_end(length: int, index: int) -> int {
    if chunk_start(index + 1) <= length {
        chunk_start(index + 1)
    } else {
        length
    }
}

/// The piece of a payload that the chunk at `index` carries.
pub open spec fn piece(payload: Seq<u8>, index: int) -> Seq<u8> {
    payload.subrange(chunk_start(index), chunk_end(payload.len() as int, index))
}

/// The chunks of a payload from `index` on, as they stand on the wire.
pub open spec fn bytes_from(payload: Seq<u8>, index: int) -> Seq<u8>
    decreases chunk_count(payload.len() as int) - index,
{
    let count = chunk_count(payload.len() as int);
    if index >= count {
        Seq::empty()
    } else {
        chunk::chunk_bytes(kind_at(index, count), piece(payload, index)) + bytes_from(
            payload,
            index + 1,
        )
    }
}

/// The bytes of a record on the wire.
pub open spec fn record_bytes(payload: Seq<u8>) -> Seq<u8> {
    bytes_from(payload, 0)
}

/// Every piece that a payload is cut into fits a chunk, and the pieces follow
/// one another without a gap up to the end of the payload.
pub proof fn pieces_fit_chunks(payload: Seq<u8>, index: int)
    requires
        0 <= index < chunk_count(payload.len() as int),
    ensures
        chunk::valid_chunk_length(piece(payload, index).len() as int),
        payload.take(chunk_end(payload.len() as int, index)) == payload.take(
            chunk_start(index),
        ) + piece(payload, index),
        index + 1 < chunk_count(payload.len() as int) ==> chunk_end(payload.len() as int, index)
            == chunk_start(index + 1),
        index + 1 == chunk_count(payload.len() as int) ==> chunk_end(payload.len() as int, index)
            == payload.len(),
{
    assert(payload.take(chunk_end(payload.len() as int, index)) =~= payload.take(
        chunk_start(index),
    ) + piece(payload, index));
}

/// What a read of one record gives, and what it leaves of the stream.
pub type RecordRead = (Result<Option<Seq<u8>>, FramingError>, Seq<u8>);

/// Reads on in a record of which `record` has been read.
pub open spec fn continued_at(record: Seq<u8>, input: Seq<u8>) -> RecordRead
    decreases input.len(),
{
    match chunk::chunk_at(input) {
        Err(error) => (Err(error), chunk::chunk_rest(input)),
        Ok(None) => (Err(FramingError::EndedEarly), input),
        Ok(Some((ChunkKind::Continue, payload))) => continued_at(
            record + payload,
            chunk::chunk_rest(input),
        ),
        Ok(Some((ChunkKind::End, payload))) => (
            Ok(Some(record + payload)),
            chunk::chunk_rest(input),
        ),
        Ok(Some(_)) => (Err(FramingError::ChunkSequence), chunk::chunk_rest(input)),
    }
}

/// The record that a stream starts with: none at the end of the stream.
pub open spec fn record_at(input: Seq<u8>) -> RecordRead {
    match chunk::chunk_at(input) {
        Err(error) => (Err(error), chunk::chunk_rest(input)),
        Ok(None) => (Ok(None), input),
        Ok(Some((ChunkKind::Single, payload))) => (Ok(Some(payload)), chunk::chunk_rest(input)),
        Ok(Some((ChunkKind::Start, payload))) => continued_at(payload, chunk::chunk_rest(input)),
        Ok(Some(_)) => (Err(FramingError::StrayContinuation), chunk::chunk_rest(input)),
    }
}

/// Whether a returned record is the one that a read gives.
pub open spec fn reads_as(
    returned: Result<Option<Vec<u8>>, FramingError>,
    read: Result<Option<Seq<u8>>, FramingError>,
) -> bool {
    match read {
        Ok(None) => returned == Ok::<Option<Vec<u8>>, FramingError>(None),
        Ok(Some(payload)) => returned matches Ok(Some(record)) && record@ == payload,
        Err(error) => returned == Err::<Option<Vec<u8>>, FramingError>(error),
    }
}

/// One chunk of a record that is to be written: its kind and the part of the
/// payload that it carries.
#[derive(Clone, Copy, Debug, PartialEq, Eq, Structural)]
pub struct PlannedChunk {
    pub kind: ChunkKind,
    pub start: usize,
    pub end: usize,
}

/// Cuts a payload of this length into chunks, or refuses an empty one.
pub fn plan_record(length: usize) -> (plan: Result<Vec<PlannedChunk>, FramingError>)
    ensures
        length == 0 ==> plan == Err::<Vec<PlannedChunk>, FramingError>(FramingError::EmptyRecord),
        length > 0 ==> {
            &&& plan matches Ok(chunks)
            &&& chunks@.len() == chunk_count(length as int)
            &&& forall|i: int|
                0 <= i < chunks@.len() ==> {
                    &&& (#[trigger] chunks@[i]).kind == kind_at(i, chunk_count(length as int))
                    &&& chunks@[i].start == chunk_start(i)
                    &&& chunks@[i].end == chunk_end(length as int, i)
                    &&& chunks@[i].start < chunks@[i].end <= length
                }
        },
{
    if length == 0 {
        return Err(FramingError::EmptyRecord);
    }
    let mut chunks: Vec<PlannedChunk> = Vec::new();
    if length <= MAX_PHYSICAL_CHUNK_BYTES {
        chunks.push(PlannedChunk { kind: ChunkKind::Single, start: 0, end: length });
        return Ok(chunks);
    }
    let ghost count = chunk_count(length as int);
    let mut start: usize = 0;
    while start < length
        invariant
            length > MAX_PHYSICAL_CHUNK_BYTES,
            count == chunk_count(length as int),
            chunks@.len() <= count,
            start == (if chunks@.len() == 0 { 0 } else { chunk_end(length as int, chunks@.len() - 1) }),
            start == chunk_start(chunks@.len() as int) || (start == length && chunks@.len()
                == count),
            start <= length,
            start == length <==> chunks@.len() == count,
            forall|i: int|
                0 <= i < chunks@.len() ==> {
                    &&& (#[trigger] chunks@[i]).kind == kind_at(i, count)
                    &&& chunks@[i].start == chunk_start(i)
                    &&& chunks@[i].end == chunk_end(length as int, i)
                    &&& chunks@[i].start < chunks@[i].end <= length
                },
        decreases length - start,
    {
        let last: bool = length - start <= MAX_PHYSICAL_CHUNK_BYTES;
        let end: usize = if last {
            length
        } else {
            start + MAX_PHYSICAL_CHUNK_BYTES
        };
        let kind = if start == 0 {
            ChunkKind::Start
        } else if last {
            ChunkKind::End
        } else {
            ChunkKind::Continue
        };
        chunks.push(PlannedChunk { kind, start, end });
        start = end;
    }
    Ok(chunks)
}

/// Appends a record to `writer`, cut into as many chunks as it needs. An empty
/// payload is refused, and nothing is appended then.
pub fn write_record(writer: &mut Vec<u8>, payload: &[u8]) -> (written: Result<(), FramingError>)
    ensures
        payload@.len() > 0 ==> {
            &&& written == Ok::<(), FramingError>(())
            &&& final(writer)@ == old(writer)@ + record_bytes(payload@)
        },
        payload@.len() == 0 ==> {
            &&& written == Err::<(), FramingError>(FramingError::EmptyRecord)
            &&& final(writer)@ == old(writer)@
        },
{
    let plan = match plan_record(payload.len()) {
        Ok(plan) => plan,
        Err(error) => { return Err(error); },
    };
    let ghost count = chunk_count(payload@.len() as int);
    let mut index: usize = 0;
    while index < plan.len()
        invariant
            count == chunk_count(payload@.len() as int),
            plan@.len() == count,
            index <= count,
            forall|i: int|
                0 <= i < plan@.len() ==> {
                    &&& (#[trigger] plan@[i]).kind == kind_at(i, count)
                    &&& plan@[i].start == chunk_start(i)
                    &&& plan@[i].end == chunk_end(payload@.len() as int, i)
                    &&& plan@[i].start < plan@[i].end <= payload@.len()
                },
            writer@ + bytes_from(payload@, index as int) == old(writer)@ + record_bytes(payload@),
        decreases count - index,
    {
        let next = plan[index];
        let ghost before = writer@;
        let ghost encoded = chunk::chunk_bytes(next.kind, piece(payload@, index as int));
        proof {
            pieces_fit_chunks(payload@, index as int);
        }
        match write_chunk(writer, next.kind, slice_subrange(payload, next.start, next.end)) {
            Ok(()) => {},
            Err(error) => { return Err(error); },
        }
        assert(before + (encoded + bytes_from(payload@, index + 1)) =~= (before + encoded)
            + bytes_from(payload@, index + 1));
        index = index + 1;
    }
    assert(writer@ =~= writer@ + bytes_from(payload@, index as int));
    Ok(())
}

/// Reads one record off the front of `reader`, or nothing at the end of the
/// stream.
pub fn read_record(reader: &mut &[u8]) -> (record: Result<Option<Vec<u8>>, FramingError>)
    ensures
        reads_as(record, record_at(old(reader)@).0),
        final(reader)@ == record_at(old(reader)@).1,
{
    let (kind, first) = match read_chunk(reader) {
        Ok(Some(chunk)) => chunk,
        Ok(None) => { return Ok(None); },
        Err(error) => { return Err(error); },
    };
    match kind {
        ChunkKind::Single => { return Ok(Some(first)); },
        ChunkKind::Start => {},
        ChunkKind::Continue | ChunkKind::End => { return Err(FramingError::StrayContinuation); },
    }
    let mut record: Vec<u8> = first;
    loop
        invariant
            continued_at(record@, reader@) == record_at(old(reader)@),
        decreases reader@.len(),
    {
        let (next_kind, chunk) = match read_chunk(reader) {
            Ok(Some(chunk)) => chunk,
            Ok(None) => { return Err(FramingError::EndedEarly); },
            Err(error) => { return Err(error); },
        };
        let ghost before = record@;
        match next_kind {
            ChunkKind::Continue => {
                record.extend_from_slice(chunk.as_slice());
                assert(record@ =~= before + chunk@);
            },
            ChunkKind::End => {
                record.extend_from_slice(chunk.as_slice());
                assert(record@ =~= before + chunk@);
                return Ok(Some(record));
            },
            ChunkKind::Single | ChunkKind::Start => {
                return Err(FramingError::ChunkSequence);
            },
        }
    }
}

/// A payload is cut every 1048576 bytes, up to its end. A single piece travels
/// alone; of several the first starts the record, the last ends it, and the
/// others continue it.
pub proof fn payload_is_cut_at_the_limit(length: int, index: int)
    requires
        length > 0,
        index >= 0,
    ensures
        index < chunk_count(length) <==> index * 1048576 < length,
        chunk_start(index) == index * 1048576,
        length - index * 1048576 > 1048576 ==> chunk_end(length, index) == index * 1048576
            + 1048576,
        0 < length - index * 1048576 <= 1048576 ==> chunk_end(length, index) == length,
        length <= 1048576 ==> kind_at(index, chunk_count(length)) == ChunkKind::Single,
        length > 1048576 && index == 0 ==> kind_at(index, chunk_count(length)) == ChunkKind::Start,
        index > 0 && length - index * 1048576 > 1048576 ==> kind_at(index, chunk_count(length))
            == ChunkKind::Continue,
        index > 0 && 0 < length - index * 1048576 <= 1048576 ==> kind_at(index, chunk_count(length))
            == ChunkKind::End,
{
}

/// What is returned is what was read: the same bytes, nothing, or the same
/// failure.
pub proof fn returned_record_is_the_one_read(
    returned: Result<Option<Vec<u8>>, FramingError>,
    read: Result<Option<Seq<u8>>, FramingError>,
)
    requires
        reads_as(returned, read),
    ensures
        match (returned, read) {
            (Ok(Some(record)), Ok(Some(payload))) => record@ == payload,
            (Ok(None), Ok(None)) => true,
            (Err(error), Err(failure)) => error == failure,
            _ => false,
        },
{
}

} // verus!
