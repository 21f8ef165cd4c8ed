//! Reading records off a stream that hands out its bytes piece by piece.
//!
//! A `RecordReader` performs no reads itself. It says how many bytes it wants
//! next, is supplied with them, and says whether the record is complete.

use vstd::prelude::*;

use crate::chunk;
use crate::chunk::{decode_header, header_from_bytes, ChunkKind, CHUNK_HEADER_BYTES};
use crate::error::FramingError;
use crate::record;

verus! {

/// What a reader is in the middle of.
#[derive(Clone, Copy, Debug, PartialEq, Eq, Structural)]
pub enum ReadStage {
    /// Before the first byte of a chunk: the stream may end here.
    Boundary,
    /// In a header of which the first byte is known.
    Header { first: u8 },
    /// In the payload of a chunk.
    Payload { kind: ChunkKind, length: usize },
}

/// A reader as the contracts see it: its stage, and what it holds of a record
/// that has been started.
pub struct ReaderView {
    pub stage: ReadStage,
    pub record: Option<Seq<u8>>,
}

/// What came of supplying a reader, as the contracts see it.
pub enum ProgressView {
    More(ReaderView),
    Record(Seq<u8>),
    EndOfStream,
    Refused(FramingError),
}

/// A reader in the middle of at most one record.
pub struct RecordReader {
    stage: ReadStage,
    record: Option<Vec<u8>>,
}

/// What came of supplying a reader with bytes.
pub enum Progress {
    /// The record goes on: this reader wants more bytes.
    More(RecordReader),
    /// The record is complete.
    Record(Vec<u8>),
    /// The stream ended before a record started.
    EndOfStream,
    /// The stream does not hold a record.
    Refused(FramingError),
}

impl View for RecordReader {
    type V = ReaderView;

    closed spec fn view(&self) -> ReaderView {
        ReaderView {
            stage: self.stage,
            record: match self.record {
                Some(record) => Some(record@),
                None => None,
            },
        }
    }
}

impl View for Progress {
    type V = ProgressView;

    open spec fn view(&self) -> ProgressView {
        match *self {
            Progress::More(reader) => ProgressView::More(reader@),
            Progress::Record(record) => ProgressView::Record(record@),
            Progress::EndOfStream => ProgressView::EndOfStream,
            Progress::Refused(error) => ProgressView::Refused(error),
        }
    }
}

impl ReaderView {
    /// A reader before the first byte of a record.
    pub open spec fn fresh() -> ReaderView {
        ReaderView { stage: ReadStage::Boundary, record: None }
    }

    /// A reader only ever waits for a payload that a chunk can carry.
    pub open spec fn wf(self) -> bool {
        self.stage matches ReadStage::Payload { kind, length } ==> chunk::valid_chunk_length(
            length as int,
        )
    }

    /// How many bytes this reader wants next.
    pub open spec fn wanted(self) -> int {
        match self.stage {
            ReadStage::Boundary => 1,
            ReadStage::Header { first } => 3,
            ReadStage::Payload { kind, length } => length as int,
        }
    }

    /// What becomes of this reader at the end of a chunk.
    pub open spec fn after_chunk(self, kind: ChunkKind, payload: Seq<u8>) -> ProgressView {
        match (self.record, kind) {
            (None, ChunkKind::Single) => ProgressView::Record(payload),
            (None, ChunkKind::Start) => ProgressView::More(
                ReaderView { stage: ReadStage::Boundary, record: Some(payload) },
            ),
            (None, _) => ProgressView::Refused(FramingError::StrayContinuation),
            (Some(record), ChunkKind::Continue) => ProgressView::More(
                ReaderView { stage: ReadStage::Boundary, record: Some(record + payload) },
            ),
            (Some(record), ChunkKind::End) => ProgressView::Record(record + payload),
            (Some(_), _) => ProgressView::Refused(FramingError::ChunkSequence),
        }
    }

    /// What becomes of this reader when it gets these bytes: all that it
    /// wanted, or fewer because the stream ended.
    pub open spec fn supplied(self, bytes: Seq<u8>) -> ProgressView {
        if bytes.len() < self.wanted() {
            if self.stage != ReadStage::Boundary {
                ProgressView::Refused(FramingError::Truncated)
            } else if self.record is Some {
                ProgressView::Refused(FramingError::EndedEarly)
            } else {
                ProgressView::EndOfStream
            }
        } else {
            match self.stage {
                ReadStage::Boundary => ProgressView::More(
                    ReaderView { stage: ReadStage::Header { first: bytes[0] }, record: self.record },
                ),
                ReadStage::Header { first } => {
                    let header = chunk::header_at(seq![first] + bytes);
                    let length = header % chunk::length_range();
                    if chunk::valid_chunk_length(length) {
                        let kind = ChunkKind::of_header(header);
                        ProgressView::More(
                            ReaderView {
                                stage: ReadStage::Payload { kind, length: length as usize },
                                record: self.record,
                            },
                        )
                    } else {
                        ProgressView::Refused(FramingError::ChunkSize)
                    }
                },
                ReadStage::Payload { kind, length } => self.after_chunk(kind, bytes),
            }
        }
    }

    /// What this reader makes of a stream from which it is supplied with all
    /// that it wants until the stream has no more, and what is left then.
    pub open spec fn run(self, input: Seq<u8>) -> record::RecordRead
        decreases input.len(),
        when self.wf()
        via ReaderView::run_shrinks
    {
        let taken = if self.wanted() <= input.len() {
            self.wanted()
        } else {
            input.len() as int
        };
        let rest = input.skip(taken);
        match self.supplied(input.take(taken)) {
            ProgressView::More(reader) => reader.run(rest),
            ProgressView::Record(record) => (Ok(Some(record)), rest),
            ProgressView::EndOfStream => (Ok(None), rest),
            ProgressView::Refused(error) => (Err(error), rest),
        }
    }

    #[via_fn]
    proof fn run_shrinks(self, input: Seq<u8>) {
    }
}

impl RecordReader {
    #[verifier::type_invariant]
    closed spec fn waits_for_a_chunk(self) -> bool {
        self.stage matches ReadStage::Payload { kind, length } ==> chunk::valid_chunk_length(
            length as int,
        )
    }

    /// A reader before the first byte of a record.
    pub fn new() -> (reader: Self)
        ensures
            reader@ == ReaderView::fresh(),
    {
        RecordReader { stage: ReadStage::Boundary, record: None }
    }

    /// How many bytes this reader wants next, at least one.
    pub fn wanted(&self) -> (count: usize)
        ensures
            count == self@.wanted(),
            self@.wf(),
            1 <= count <= chunk::MAX_PHYSICAL_CHUNK_BYTES,
    {
        proof {
            use_type_invariant(self);
        }
        match self.stage {
            ReadStage::Boundary => 1,
            ReadStage::Header { .. } => 3,
            ReadStage::Payload { length, .. } => length,
        }
    }

    /// Whether this reader stands between two chunks, where a stream may end.
    pub fn at_boundary(&self) -> (boundary: bool)
        ensures
            boundary == (self@.stage == ReadStage::Boundary),
    {
        match self.stage {
            ReadStage::Boundary => true,
            _ => false,
        }
    }

    /// Supplies this reader with the bytes that it wanted, or with the fewer
    /// that came before the stream ended.
    pub fn supply(self, bytes: Vec<u8>) -> (progress: Progress)
        requires
            bytes@.len() <= self@.wanted(),
        ensures
            progress@ == self@.supplied(bytes@),
            progress matches Progress::More(reader) ==> reader@.wf(),
    {
        let wanted: usize = self.wanted();
        if bytes.len() < wanted {
            return match (self.stage, self.record) {
                (ReadStage::Boundary, None) => Progress::EndOfStream,
                (ReadStage::Boundary, Some(_)) => Progress::Refused(FramingError::EndedEarly),
                _ => Progress::Refused(FramingError::Truncated),
            };
        }
        match self.stage {
            ReadStage::Boundary => {
                let stage = ReadStage::Header { first: bytes[0] };
                Progress::More(RecordReader { stage, record: self.record })
            },
            ReadStage::Header { first } => {
                let mut head: Vec<u8> = Vec::with_capacity(CHUNK_HEADER_BYTES);
                head.push(first);
                head.extend_from_slice(bytes.as_slice());
                assert(head@ =~= seq![first] + bytes@);
                match decode_header(header_from_bytes(head.as_slice())) {
                    Ok((kind, length)) => {
                        let stage = ReadStage::Payload { kind, length };
                        Progress::More(RecordReader { stage, record: self.record })
                    },
                    Err(error) => Progress::Refused(error),
                }
            },
            ReadStage::Payload { kind, .. } => RecordReader::end_chunk(self.record, kind, bytes),
        }
    }

    /// Adds a chunk to what is there of a record.
    fn end_chunk(record: Option<Vec<u8>>, kind: ChunkKind, payload: Vec<u8>) -> (progress: Progress)
        ensures
            forall|reader: ReaderView|
                reader.record == (match record {
                    Some(bytes) => Some(bytes@),
                    None => None,
                }) ==> progress@ == #[trigger] reader.after_chunk(kind, payload@),
            progress matches Progress::More(reader) ==> reader@.wf(),
    {
        let stage = ReadStage::Boundary;
        match (record, kind) {
            (None, ChunkKind::Single) => Progress::Record(payload),
            (None, ChunkKind::Start) => Progress::More(
                RecordReader { stage, record: Some(payload) },
            ),
            (None, _) => Progress::Refused(FramingError::StrayContinuation),
            (Some(bytes), ChunkKind::Continue) => {
                let mut joined: Vec<u8> = bytes;
                joined.extend_from_slice(payload.as_slice());
                assert(joined@ =~= bytes@ + payload@);
                Progress::More(RecordReader { stage, record: Some(joined) })
            },
            (Some(bytes), ChunkKind::End) => {
                let mut joined: Vec<u8> = bytes;
                joined.extend_from_slice(payload.as_slice());
                assert(joined@ =~= bytes@ + payload@);
                Progress::Record(joined)
            },
            (Some(_), _) => Progress::Refused(FramingError::ChunkSequence),
        }
    }
}

} // verus!
