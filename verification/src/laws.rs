//! What holds of chunks and records as a whole: what is written can be read
//! back, whatever follows it, and what was cut off is noticed.

use vstd::prelude::*;

use crate::chunk;
use crate::chunk::ChunkKind;
use crate::error::{ErrorKind, FramingError};
use crate::record;
use crate::stream::{ProgressView, ReadStage, ReaderView};

verus! {

/// A header gives back the kind and the length that it was made from.
pub proof fn header_round_trips(kind: ChunkKind, length: int)
    requires
        chunk::valid_chunk_length(length),
    ensures
        chunk::header_at(chunk::header_bytes(chunk::header_value(kind, length)))
            == chunk::header_value(kind, length),
        ChunkKind::of_header(chunk::header_value(kind, length)) == kind,
        chunk::header_value(kind, length) % chunk::length_range() == length,
{
}

/// A chunk is read back as it was written, and the read stops right behind it.
pub proof fn chunk_round_trips(kind: ChunkKind, payload: Seq<u8>, rest: Seq<u8>)
    requires
        chunk::valid_chunk_length(payload.len() as int),
    ensures
        chunk::chunk_at(chunk::chunk_bytes(kind, payload) + rest) == Ok::<
            Option<(ChunkKind, Seq<u8>)>,
            FramingError,
        >(Some((kind, payload))),
        chunk::chunk_rest(chunk::chunk_bytes(kind, payload) + rest) == rest,
{
    let length = payload.len() as int;
    let head = chunk::header_bytes(chunk::header_value(kind, length));
    let input = chunk::chunk_bytes(kind, payload) + rest;
    header_round_trips(kind, length);
    assert(forall|i: int| 0 <= i < 4 ==> input[i] == head[i]);
    assert(chunk::header_at(input) == chunk::header_at(head));
    assert(input.subrange(4, 4 + length) =~= payload);
    assert(input.skip(4 + length) =~= rest);
}

/// The four bytes that spell a header are the bytes of that header.
proof fn header_bytes_spell_it(input: Seq<u8>)
    requires
        input.len() >= 4,
    ensures
        0 <= chunk::header_at(input) < 0x1_0000_0000,
        chunk::header_bytes(chunk::header_at(input)) == input.take(4),
{
    let header = chunk::header_at(input);
    assert(header / 256 == input[1] + 256 * input[2] + 65536 * input[3]);
    assert(header / 65536 == input[2] + 256 * input[3]);
    assert(header / 16777216 == input[3]);
    assert(header % 256 == input[0]);
    assert(header / 256 % 256 == input[1]);
    assert(header / 65536 % 256 == input[2]);
    assert(chunk::header_bytes(header) =~= input.take(4));
}

/// A header is made of the kind and the length that it announces.
proof fn header_is_made_of_its_parts(header: int)
    requires
        0 <= header < 0x1_0000_0000,
    ensures
        header == chunk::header_value(
            ChunkKind::of_header(header),
            header % chunk::length_range(),
        ),
{
}

/// A chunk that was read stands in the stream exactly as it would be written.
pub proof fn read_chunk_is_written_alike(input: Seq<u8>)
    ensures
        chunk::chunk_at(input) matches Ok(Some((kind, payload))) ==> {
            &&& chunk::valid_chunk_length(payload.len() as int)
            &&& input == chunk::chunk_bytes(kind, payload) + chunk::chunk_rest(input)
        },
{
    if let Ok(Some((kind, payload))) = chunk::chunk_at(input) {
        let header = chunk::header_at(input);
        header_bytes_spell_it(input);
        header_is_made_of_its_parts(header);
        assert(input =~= chunk::chunk_bytes(kind, payload) + chunk::chunk_rest(input));
    }
}

/// A chunk that was cut short anywhere is refused as truncated.
pub proof fn cut_chunk_is_truncated(kind: ChunkKind, payload: Seq<u8>, length: int)
    requires
        chunk::valid_chunk_length(payload.len() as int),
        0 < length < chunk::chunk_bytes(kind, payload).len(),
    ensures
        chunk::chunk_at(chunk::chunk_bytes(kind, payload).take(length)) == Err::<
            Option<(ChunkKind, Seq<u8>)>,
            FramingError,
        >(FramingError::Truncated),
{
    let whole = chunk::chunk_bytes(kind, payload);
    let cut = whole.take(length);
    if length >= 4 {
        chunk_round_trips(kind, payload, Seq::empty());
        header_round_trips(kind, payload.len() as int);
        let head = chunk::header_bytes(chunk::header_value(kind, payload.len() as int));
        assert(forall|i: int| 0 <= i < 4 ==> cut[i] == head[i]);
        assert(chunk::header_at(cut) == chunk::header_at(head));
    }
}

/// A payload survives being written as a record and read back, and the read
/// stops right behind the record.
pub proof fn record_round_trips(payload: Seq<u8>, rest: Seq<u8>)
    requires
        payload.len() > 0,
    ensures
        record::record_at(record::record_bytes(payload) + rest) == (
            Ok::<Option<Seq<u8>>, FramingError>(Some(payload)),
            rest,
        ),
{
    let count = record::chunk_count(payload.len() as int);
    let first = record::piece(payload, 0);
    let encoded = chunk::chunk_bytes(record::kind_at(0, count), first);
    let tail = record::bytes_from(payload, 1);
    record::pieces_fit_chunks(payload, 0);
    assert(record::record_bytes(payload) + rest =~= encoded + (tail + rest));
    chunk_round_trips(record::kind_at(0, count), first, tail + rest);
    if count == 1 {
        assert(first =~= payload);
        assert(tail + rest =~= rest);
    } else {
        assert(payload.take(record::chunk_start(1)) =~= first);
        continuation_round_trips(payload, 1, rest);
    }
}

/// The chunks of a record from `index` on complete what came before them.
proof fn continuation_round_trips(payload: Seq<u8>, index: int, rest: Seq<u8>)
    requires
        1 <= index < record::chunk_count(payload.len() as int),
    ensures
        record::continued_at(
            payload.take(record::chunk_start(index)),
            record::bytes_from(payload, index) + rest,
        ) == (Ok::<Option<Seq<u8>>, FramingError>(Some(payload)), rest),
    decreases record::chunk_count(payload.len() as int) - index,
{
    let count = record::chunk_count(payload.len() as int);
    let kind = record::kind_at(index, count);
    let next = record::piece(payload, index);
    let tail = record::bytes_from(payload, index + 1);
    record::pieces_fit_chunks(payload, index);
    assert(record::bytes_from(payload, index) + rest =~= chunk::chunk_bytes(kind, next) + (tail
        + rest));
    chunk_round_trips(kind, next, tail + rest);
    if index + 1 == count {
        assert(tail + rest =~= rest);
        assert(payload.take(payload.len() as int) =~= payload);
    } else {
        continuation_round_trips(payload, index + 1, rest);
    }
}

/// A record that was cut short anywhere is noticed: the read fails and says
/// that the stream ended too early.
pub proof fn cut_record_is_noticed(payload: Seq<u8>, length: int)
    requires
        payload.len() > 0,
        0 < length < record::record_bytes(payload).len(),
    ensures
        record::record_at(record::record_bytes(payload).take(length)).0 matches Err(error)
            && error.kind_spec() == ErrorKind::UnexpectedEof,
{
    let count = record::chunk_count(payload.len() as int);
    let kind = record::kind_at(0, count);
    let first = record::piece(payload, 0);
    let encoded = chunk::chunk_bytes(kind, first);
    let tail = record::bytes_from(payload, 1);
    let cut = record::record_bytes(payload).take(length);
    record::pieces_fit_chunks(payload, 0);
    if length < encoded.len() {
        assert(cut =~= encoded.take(length));
        cut_chunk_is_truncated(kind, first, length);
    } else {
        let left = tail.take(length - encoded.len());
        assert(cut =~= encoded + left);
        chunk_round_trips(kind, first, left);
        cut_continuation_is_noticed(payload, 1, first, length - encoded.len());
    }
}

/// The chunks of a record from `index` on, cut short, do not end it.
proof fn cut_continuation_is_noticed(
    payload: Seq<u8>,
    index: int,
    record: Seq<u8>,
    length: int,
)
    requires
        1 <= index,
        0 <= length < record::bytes_from(payload, index).len(),
    ensures
        record::continued_at(record, record::bytes_from(payload, index).take(length)).0 matches Err(
            error,
        ) && error.kind_spec() == ErrorKind::UnexpectedEof,
    decreases record::chunk_count(payload.len() as int) - index,
{
    let count = record::chunk_count(payload.len() as int);
    let kind = record::kind_at(index, count);
    let next = record::piece(payload, index);
    let encoded = chunk::chunk_bytes(kind, next);
    let tail = record::bytes_from(payload, index + 1);
    let cut = record::bytes_from(payload, index).take(length);
    record::pieces_fit_chunks(payload, index);
    if length == 0 {
        assert(cut =~= Seq::empty());
    } else if length < encoded.len() {
        assert(cut =~= encoded.take(length));
        cut_chunk_is_truncated(kind, next, length);
    } else {
        let left = tail.take(length - encoded.len());
        assert(cut =~= encoded + left);
        chunk_round_trips(kind, next, left);
        cut_continuation_is_noticed(payload, index + 1, record + next, length - encoded.len());
    }
}

/// A chunk is read alike whatever follows it in the stream.
pub proof fn chunk_ignores_what_follows(input: Seq<u8>, more: Seq<u8>)
    requires
        chunk::chunk_at(input) matches Ok(Some(_)),
    ensures
        chunk::chunk_at(input + more) == chunk::chunk_at(input),
        chunk::chunk_rest(input + more) == chunk::chunk_rest(input) + more,
{
    if let Ok(Some((kind, payload))) = chunk::chunk_at(input) {
        let rest = chunk::chunk_rest(input);
        read_chunk_is_written_alike(input);
        assert(input + more =~= chunk::chunk_bytes(kind, payload) + (rest + more));
        chunk_round_trips(kind, payload, rest + more);
    }
}

/// A record is read alike whatever follows it in the stream.
pub proof fn record_ignores_what_follows(input: Seq<u8>, more: Seq<u8>)
    requires
        record::record_at(input).0 matches Ok(Some(_)),
    ensures
        record::record_at(input + more) == (
            record::record_at(input).0,
            record::record_at(input).1 + more,
        ),
{
    chunk_ignores_what_follows(input, more);
    if let Ok(Some((ChunkKind::Start, payload))) = chunk::chunk_at(input) {
        continuation_ignores_what_follows(payload, chunk::chunk_rest(input), more);
    }
}

/// The rest of a record is read alike whatever follows it in the stream.
proof fn continuation_ignores_what_follows(record: Seq<u8>, input: Seq<u8>, more: Seq<u8>)
    requires
        record::continued_at(record, input).0 matches Ok(Some(_)),
    ensures
        record::continued_at(record, input + more) == (
            record::continued_at(record, input).0,
            record::continued_at(record, input).1 + more,
        ),
    decreases input.len(),
{
    chunk_ignores_what_follows(input, more);
    if let Ok(Some((ChunkKind::Continue, payload))) = chunk::chunk_at(input) {
        continuation_ignores_what_follows(record + payload, chunk::chunk_rest(input), more);
    }
}

/// A read takes bytes off the front of the stream only: what it leaves is the
/// stream's end. A record that was read took at least a header and one byte.
pub proof fn record_read_advances(input: Seq<u8>)
    ensures
        record::record_at(input).1.len() <= input.len(),
        record::record_at(input).1 == input.skip(input.len() - record::record_at(input).1.len()),
        record::record_at(input).0 matches Ok(Some(_)) ==> record::record_at(input).1.len() + 5
            <= input.len(),
{
    chunk_read_advances(input);
    let rest = chunk::chunk_rest(input);
    match chunk::chunk_at(input) {
        Ok(Some((ChunkKind::Start, payload))) => {
            continuation_advances(payload, rest);
            let left = record::record_at(input).1;
            assert(left =~= input.skip(input.len() - left.len()));
        },
        _ => {},
    }
}

/// What a chunk read leaves is the end of the stream.
proof fn chunk_read_advances(input: Seq<u8>)
    ensures
        chunk::chunk_rest(input).len() <= input.len(),
        chunk::chunk_rest(input) == input.skip(input.len() - chunk::chunk_rest(input).len()),
        chunk::chunk_at(input) matches Ok(Some(_)) ==> chunk::chunk_rest(input).len() + 5
            <= input.len(),
{
    let rest = chunk::chunk_rest(input);
    assert(rest =~= input.skip(input.len() - rest.len()));
}

/// What the read of the rest of a record leaves is the end of the stream.
proof fn continuation_advances(record: Seq<u8>, input: Seq<u8>)
    ensures
        record::continued_at(record, input).1.len() <= input.len(),
        record::continued_at(record, input).1 == input.skip(
            input.len() - record::continued_at(record, input).1.len(),
        ),
    decreases input.len(),
{
    chunk_read_advances(input);
    let rest = chunk::chunk_rest(input);
    let left = record::continued_at(record, input).1;
    if let Ok(Some((ChunkKind::Continue, payload))) = chunk::chunk_at(input) {
        continuation_advances(record + payload, rest);
    }
    assert(left =~= input.skip(input.len() - left.len()));
}

/// No record starts with a chunk that can only follow another one. The read
/// stops right behind that chunk.
pub proof fn continuation_cannot_start_a_record(kind: ChunkKind, payload: Seq<u8>, rest: Seq<u8>)
    requires
        kind == ChunkKind::Continue || kind == ChunkKind::End,
        chunk::valid_chunk_length(payload.len() as int),
    ensures
        record::record_at(chunk::chunk_bytes(kind, payload) + rest) == (
            Err::<Option<Seq<u8>>, FramingError>(FramingError::StrayContinuation),
            rest,
        ),
        FramingError::StrayContinuation.kind_spec() == ErrorKind::InvalidData,
{
    chunk_round_trips(kind, payload, rest);
}

/// The chunks that go on with a record, one behind the other.
pub open spec fn continuation_bytes(payloads: Seq<Seq<u8>>) -> Seq<u8>
    decreases payloads.len(),
{
    if payloads.len() == 0 {
        Seq::empty()
    } else {
        chunk::chunk_bytes(ChunkKind::Continue, payloads.first()) + continuation_bytes(
            payloads.drop_first(),
        )
    }
}

/// Whatever has been read of a record, a chunk that opens a record is refused
/// where one that goes on is due. The read stops right behind that chunk.
pub proof fn opening_chunk_is_refused_inside_a_record(
    record: Seq<u8>,
    kind: ChunkKind,
    payload: Seq<u8>,
    rest: Seq<u8>,
)
    requires
        kind == ChunkKind::Single || kind == ChunkKind::Start,
        chunk::valid_chunk_length(payload.len() as int),
    ensures
        record::continued_at(record, chunk::chunk_bytes(kind, payload) + rest) == (
            Err::<Option<Seq<u8>>, FramingError>(FramingError::ChunkSequence),
            rest,
        ),
        FramingError::ChunkSequence.kind_spec() == ErrorKind::InvalidData,
{
    chunk_round_trips(kind, payload, rest);
}

/// No record starts inside another one, however many chunks of that one have
/// been read: the read fails, and stops right behind the chunk that opens the
/// inner one.
pub proof fn records_do_not_nest(
    first: Seq<u8>,
    continued: Seq<Seq<u8>>,
    kind: ChunkKind,
    payload: Seq<u8>,
    rest: Seq<u8>,
)
    requires
        kind == ChunkKind::Single || kind == ChunkKind::Start,
        chunk::valid_chunk_length(first.len() as int),
        chunk::valid_chunk_length(payload.len() as int),
        forall|i: int|
            0 <= i < continued.len() ==> chunk::valid_chunk_length(
                (#[trigger] continued[i]).len() as int,
            ),
    ensures
        record::record_at(
            chunk::chunk_bytes(ChunkKind::Start, first) + (continuation_bytes(continued) + (
            chunk::chunk_bytes(kind, payload) + rest)),
        ) == (Err::<Option<Seq<u8>>, FramingError>(FramingError::ChunkSequence), rest),
{
    let inner = chunk::chunk_bytes(kind, payload) + rest;
    chunk_round_trips(ChunkKind::Start, first, continuation_bytes(continued) + inner);
    nested_chunk_is_refused(first, continued, kind, payload, rest);
}

/// The same of a record of which the start has been read.
proof fn nested_chunk_is_refused(
    record: Seq<u8>,
    continued: Seq<Seq<u8>>,
    kind: ChunkKind,
    payload: Seq<u8>,
    rest: Seq<u8>,
)
    requires
        kind == ChunkKind::Single || kind == ChunkKind::Start,
        chunk::valid_chunk_length(payload.len() as int),
        forall|i: int|
            0 <= i < continued.len() ==> chunk::valid_chunk_length(
                (#[trigger] continued[i]).len() as int,
            ),
    ensures
        record::continued_at(
            record,
            continuation_bytes(continued) + (chunk::chunk_bytes(kind, payload) + rest),
        ) == (Err::<Option<Seq<u8>>, FramingError>(FramingError::ChunkSequence), rest),
    decreases continued.len(),
{
    let inner = chunk::chunk_bytes(kind, payload) + rest;
    if continued.len() == 0 {
        assert(continuation_bytes(continued) + inner =~= inner);
        opening_chunk_is_refused_inside_a_record(record, kind, payload, rest);
    } else {
        let next = continued.first();
        let others = continued.drop_first();
        let tail = continuation_bytes(others) + inner;
        assert(chunk::valid_chunk_length(continued[0].len() as int));
        assert forall|i: int| 0 <= i < others.len() implies chunk::valid_chunk_length(
            (#[trigger] others[i]).len() as int,
        ) by {
            assert(others[i] == continued[i + 1]);
        }
        assert(continuation_bytes(continued) + inner =~= chunk::chunk_bytes(
            ChunkKind::Continue,
            next,
        ) + tail);
        chunk_round_trips(ChunkKind::Continue, next, tail);
        nested_chunk_is_refused(record + next, others, kind, payload, rest);
    }
}

/// The records of a stream, written one behind the other.
pub open spec fn stream_bytes(payloads: Seq<Seq<u8>>) -> Seq<u8>
    decreases payloads.len(),
{
    if payloads.len() == 0 {
        Seq::empty()
    } else {
        record::record_bytes(payloads.first()) + stream_bytes(payloads.drop_first())
    }
}

/// The payloads that reading record after record gives, up to the end of the
/// stream or the first failure.
pub open spec fn records_of(input: Seq<u8>) -> Result<Seq<Seq<u8>>, FramingError>
    decreases input.len(),
    via records_of_shrinks
{
    match record::record_at(input) {
        (Ok(None), _) => Ok(Seq::empty()),
        (Ok(Some(payload)), rest) => match records_of(rest) {
            Ok(others) => Ok(seq![payload] + others),
            Err(error) => Err(error),
        },
        (Err(error), _) => Err(error),
    }
}

#[via_fn]
proof fn records_of_shrinks(input: Seq<u8>) {
    record_read_advances(input);
}

/// Every record of a stream is read back, in order, and nothing else.
pub proof fn stream_round_trips(payloads: Seq<Seq<u8>>)
    requires
        forall|i: int| 0 <= i < payloads.len() ==> (#[trigger] payloads[i]).len() > 0,
    ensures
        records_of(stream_bytes(payloads)) == Ok::<Seq<Seq<u8>>, FramingError>(payloads),
    decreases payloads.len(),
{
    if payloads.len() == 0 {
        assert(payloads =~= Seq::empty());
    } else {
        let others = payloads.drop_first();
        assert forall|i: int| 0 <= i < others.len() implies (#[trigger] others[i]).len() > 0 by {
            assert(others[i] == payloads[i + 1]);
        }
        stream_round_trips(others);
        record_round_trips(payloads.first(), stream_bytes(others));
        assert(seq![payloads.first()] + others =~= payloads);
    }
}

/// A reader that is supplied piece by piece finds in every stream what reading
/// the whole stream at once finds, and leaves the same bytes.
pub proof fn reading_in_pieces_finds_the_same(input: Seq<u8>)
    ensures
        ReaderView::fresh().run(input) == record::record_at(input),
{
    pieces_of_a_chunk(ReaderView::fresh(), input);
    if let Ok(Some((ChunkKind::Start, payload))) = chunk::chunk_at(input) {
        continuing_in_pieces_finds_the_same(payload, chunk::chunk_rest(input));
    }
}

/// The same of a reader that holds the start of a record.
proof fn continuing_in_pieces_finds_the_same(record: Seq<u8>, input: Seq<u8>)
    ensures
        (ReaderView { stage: ReadStage::Boundary, record: Some(record) }).run(input)
            == record::continued_at(record, input),
    decreases input.len(),
{
    pieces_of_a_chunk(ReaderView { stage: ReadStage::Boundary, record: Some(record) }, input);
    if let Ok(Some((ChunkKind::Continue, payload))) = chunk::chunk_at(input) {
        continuing_in_pieces_finds_the_same(record + payload, chunk::chunk_rest(input));
    }
}

/// A reader between two chunks takes the next chunk in three pieces.
proof fn pieces_of_a_chunk(reader: ReaderView, input: Seq<u8>)
    requires
        reader.stage == ReadStage::Boundary,
    ensures
        reader.run(input) == match chunk::chunk_at(input) {
            Err(error) => (Err(error), chunk::chunk_rest(input)),
            Ok(None) => if reader.record is Some {
                (Err(FramingError::EndedEarly), input)
            } else {
                (Ok(None), input)
            },
            Ok(Some((kind, payload))) => match reader.after_chunk(kind, payload) {
                ProgressView::More(next) => next.run(chunk::chunk_rest(input)),
                ProgressView::Record(record) => (Ok(Some(record)), chunk::chunk_rest(input)),
                ProgressView::EndOfStream => (Ok(None), chunk::chunk_rest(input)),
                ProgressView::Refused(error) => (Err(error), chunk::chunk_rest(input)),
            },
        },
{
    if input.len() == 0 {
        assert(input.skip(0) =~= input);
    } else {
        let in_header = ReaderView {
            stage: ReadStage::Header { first: input[0] },
            record: reader.record,
        };
        let after_first = input.skip(1);
        assert(reader.run(input) == in_header.run(after_first));
        if input.len() < 4 {
            assert(after_first.skip(after_first.len() as int) =~= Seq::empty());
        } else {
            let header = chunk::header_at(input);
            let length = header % chunk::length_range();
            let body = input.skip(4);
            assert(after_first.skip(3) =~= body);
            assert(seq![input[0]] + after_first.take(3) =~= input.take(4));
            assert(chunk::header_at(input.take(4)) == header);
            if chunk::valid_chunk_length(length) {
                let in_payload = ReaderView {
                    stage: ReadStage::Payload {
                        kind: ChunkKind::of_header(header),
                        length: length as usize,
                    },
                    record: reader.record,
                };
                assert(in_header.run(after_first) == in_payload.run(body));
                if body.len() < length {
                    assert(body.skip(body.len() as int) =~= Seq::empty());
                } else {
                    assert(body.take(length) =~= input.subrange(4, 4 + length));
                    assert(body.skip(length) =~= input.skip(4 + length));
                }
            }
        }
    }
}

/// The four bytes of a header count the payload in their low thirty bits, the
/// first byte being the least significant; the two top bits say where the chunk
/// stands in its record. The payload follows as it is.
pub proof fn chunk_is_header_and_payload(kind: ChunkKind, payload: Seq<u8>)
    requires
        1 <= payload.len() <= 1048576,
    ensures
        chunk::chunk_bytes(kind, payload).len() == 4 + payload.len(),
        chunk::chunk_bytes(kind, payload).skip(4) == payload,
        chunk::chunk_bytes(kind, payload)[0] + 256 * chunk::chunk_bytes(kind, payload)[1] + 65536
            * chunk::chunk_bytes(kind, payload)[2] + 16777216 * chunk::chunk_bytes(kind, payload)[3]
            == payload.len() + 1073741824 * (match kind {
            ChunkKind::Single => 0int,
            ChunkKind::Start => 1,
            ChunkKind::Continue => 2,
            ChunkKind::End => 3,
        }),
{
    let bytes = chunk::chunk_bytes(kind, payload);
    let head = chunk::header_bytes(chunk::header_value(kind, payload.len() as int));
    header_round_trips(kind, payload.len() as int);
    assert(forall|i: int| 0 <= i < 4 ==> bytes[i] == head[i]);
    assert(bytes.skip(4) =~= payload);
}

/// A header announces the kind that its two top bits hold and the length that
/// its other bits hold, of which those from 1 to 1048576 can be used.
pub proof fn header_is_taken_apart(header: u32)
    ensures
        header < 0x4000_0000 <==> ChunkKind::of_header(header as int) == ChunkKind::Single,
        0x4000_0000 <= header < 0x8000_0000 <==> ChunkKind::of_header(header as int)
            == ChunkKind::Start,
        0x8000_0000 <= header < 0xc000_0000 <==> ChunkKind::of_header(header as int)
            == ChunkKind::Continue,
        0xc000_0000 <= header <==> ChunkKind::of_header(header as int) == ChunkKind::End,
        chunk::length_range() == 0x4000_0000,
        chunk::valid_chunk_length(header as int % 0x4000_0000) <==> 1 <= header % 0x4000_0000
            <= 1048576,
{
}

/// What the first four bytes of a stream say decides what is read: a length
/// that no chunk has is refused behind the header, one that the stream cannot
/// fill is truncated and takes all bytes, and any other gives so many bytes.
pub proof fn chunk_is_read_by_its_header(input: Seq<u8>)
    requires
        input.len() >= 4,
    ensures
        ({
            let length = input[0] + 256 * input[1] + 65536 * input[2] + 16777216 * (input[3] as int
                % 64);
            if length == 0 || length > 1048576 {
                &&& chunk::chunk_at(input) matches Err(FramingError::ChunkSize)
                &&& chunk::chunk_rest(input) == input.skip(4)
            } else if input.len() < 4 + length {
                &&& chunk::chunk_at(input) matches Err(FramingError::Truncated)
                &&& chunk::chunk_rest(input) == Seq::<u8>::empty()
            } else {
                &&& chunk::chunk_at(input) matches Ok(Some((kind, payload)))
                &&& payload == input.subrange(4, 4 + length)
                &&& chunk::chunk_rest(input) == input.skip(4 + length)
                &&& input[3] < 64 <==> kind == ChunkKind::Single
                &&& 64 <= input[3] < 128 <==> kind == ChunkKind::Start
                &&& 128 <= input[3] < 192 <==> kind == ChunkKind::Continue
                &&& 192 <= input[3] <==> kind == ChunkKind::End
            }
        }),
{
}

/// A stream that has ended holds no chunk, and one that ends inside a header a
/// truncated one.
pub proof fn chunk_needs_its_header(input: Seq<u8>)
    requires
        input.len() < 4,
    ensures
        chunk::chunk_rest(input) == Seq::<u8>::empty(),
        input.len() == 0 ==> (chunk::chunk_at(input) matches Ok(None)),
        input.len() > 0 ==> (chunk::chunk_at(input) matches Err(FramingError::Truncated)),
{
    if input.len() == 0 {
        assert(input =~= Seq::empty());
    }
}

/// On the wire the pieces of a record stand one behind the other, each behind
/// its header: all but the last are as long as a chunk can be, and the record
/// ends with the last.
pub proof fn record_is_laid_out_in_chunks(payload: Seq<u8>, index: int)
    requires
        0 <= index,
        index * 1048576 < payload.len(),
    ensures
        ({
            let start = index * 1048576;
            let last = payload.len() - start <= 1048576;
            let end = if last {
                payload.len() as int
            } else {
                start + 1048576
            };
            let kind = if payload.len() <= 1048576 {
                ChunkKind::Single
            } else if index == 0 {
                ChunkKind::Start
            } else if last {
                ChunkKind::End
            } else {
                ChunkKind::Continue
            };
            let wire = record::record_bytes(payload);
            let place = index * 1048580;
            &&& place + 4 + (end - start) <= wire.len()
            &&& last ==> place + 4 + (end - start) == wire.len()
            &&& wire.subrange(place, place + 4 + (end - start)) == chunk::chunk_bytes(
                kind,
                payload.subrange(start, end),
            )
        }),
{
    let wire = record::record_bytes(payload);
    let length = payload.len() as int;
    let count = record::chunk_count(length);
    let encoded = chunk::chunk_bytes(record::kind_at(index, count), record::piece(payload, index));
    let tail = record::bytes_from(payload, index + 1);
    record::payload_is_cut_at_the_limit(length, index);
    chunks_stand_in_their_places(payload, index);
    assert(record::bytes_from(payload, index) == encoded + tail);
    assert(wire.subrange(index * 1048580, index * 1048580 + encoded.len()) =~= (encoded
        + tail).take(encoded.len() as int));
    assert((encoded + tail).take(encoded.len() as int) =~= encoded);
}

/// What stands on the wire from the place of a chunk on is that chunk and those
/// behind it.
proof fn chunks_stand_in_their_places(payload: Seq<u8>, index: int)
    requires
        0 <= index,
        index * 1048576 < payload.len(),
    ensures
        index * 1048580 <= record::record_bytes(payload).len(),
        record::record_bytes(payload).skip(index * 1048580) == record::bytes_from(payload, index),
    decreases index,
{
    let wire = record::record_bytes(payload);
    if index == 0 {
        assert(wire.skip(0) =~= wire);
    } else {
        let before = index - 1;
        let count = record::chunk_count(payload.len() as int);
        let encoded = chunk::chunk_bytes(
            record::kind_at(before, count),
            record::piece(payload, before),
        );
        chunks_stand_in_their_places(payload, before);
        assert(encoded.len() == 1048580);
        assert(record::bytes_from(payload, before) == encoded + record::bytes_from(payload, index));
        assert(wire.skip(index * 1048580) =~= wire.skip(before * 1048580).skip(1048580));
        assert((encoded + record::bytes_from(payload, index)).skip(1048580) =~= record::bytes_from(
            payload,
            index,
        ));
    }
}

/// Chunks that go on with a record add their payloads to it, in order.
proof fn continuations_are_added(record: Seq<u8>, continued: Seq<Seq<u8>>, input: Seq<u8>)
    requires
        forall|i: int|
            0 <= i < continued.len() ==> 1 <= (#[trigger] continued[i]).len() <= 1048576,
    ensures
        record::continued_at(record, continuation_bytes(continued) + input)
            == record::continued_at(record + continued.flatten(), input),
    decreases continued.len(),
{
    if continued.len() == 0 {
        assert(continuation_bytes(continued) + input =~= input);
        assert(record + continued.flatten() =~= record);
    } else {
        let next = continued.first();
        let others = continued.drop_first();
        let tail = continuation_bytes(others) + input;
        assert(1 <= continued[0].len() <= 1048576);
        assert forall|i: int| 0 <= i < others.len() implies 1 <= (#[trigger] others[i]).len()
            <= 1048576 by {
            assert(others[i] == continued[i + 1]);
        }
        assert(continuation_bytes(continued) + input =~= chunk::chunk_bytes(
            ChunkKind::Continue,
            next,
        ) + tail);
        chunk_round_trips(ChunkKind::Continue, next, tail);
        continuations_are_added(record + next, others, input);
        assert((record + next) + others.flatten() =~= record + continued.flatten());
    }
}

/// A single chunk is a record of its own.
pub proof fn single_chunk_is_a_record(payload: Seq<u8>, rest: Seq<u8>)
    requires
        1 <= payload.len() <= 1048576,
    ensures
        record::record_at(chunk::chunk_bytes(ChunkKind::Single, payload) + rest) == (
            Ok::<Option<Seq<u8>>, FramingError>(Some(payload)),
            rest,
        ),
{
    chunk_round_trips(ChunkKind::Single, payload, rest);
}

/// However a record was cut, it is read as the payloads of its chunks, one
/// behind the other, and the read stops right behind the last chunk.
pub proof fn chunks_make_a_record(
    first: Seq<u8>,
    continued: Seq<Seq<u8>>,
    last: Seq<u8>,
    rest: Seq<u8>,
)
    requires
        1 <= first.len() <= 1048576,
        forall|i: int|
            0 <= i < continued.len() ==> 1 <= (#[trigger] continued[i]).len() <= 1048576,
        1 <= last.len() <= 1048576,
    ensures
        record::record_at(
            chunk::chunk_bytes(ChunkKind::Start, first) + (continuation_bytes(continued) + (
            chunk::chunk_bytes(ChunkKind::End, last) + rest)),
        ) == (
            Ok::<Option<Seq<u8>>, FramingError>(Some(first + continued.flatten() + last)),
            rest,
        ),
{
    let end = chunk::chunk_bytes(ChunkKind::End, last) + rest;
    chunk_round_trips(ChunkKind::Start, first, continuation_bytes(continued) + end);
    continuations_are_added(first, continued, end);
    chunk_round_trips(ChunkKind::End, last, rest);
}

/// A record whose last chunk is missing has ended early, and everything has
/// been read.
pub proof fn record_without_its_end_is_refused(first: Seq<u8>, continued: Seq<Seq<u8>>)
    requires
        1 <= first.len() <= 1048576,
        forall|i: int|
            0 <= i < continued.len() ==> 1 <= (#[trigger] continued[i]).len() <= 1048576,
    ensures
        record::record_at(
            chunk::chunk_bytes(ChunkKind::Start, first) + continuation_bytes(continued),
        ) == (
            Err::<Option<Seq<u8>>, FramingError>(FramingError::EndedEarly),
            Seq::<u8>::empty(),
        ),
{
    let nothing = Seq::<u8>::empty();
    assert(continuation_bytes(continued) + nothing =~= continuation_bytes(continued));
    chunk_round_trips(ChunkKind::Start, first, continuation_bytes(continued));
    continuations_are_added(first, continued, nothing);
}

/// A chunk that cannot be read fails its record with the same failure, whether
/// it is the first or a later one, and leaves what the chunk leaves. A stream
/// that has ended holds no record.
pub proof fn bad_chunk_fails_its_record(
    first: Seq<u8>,
    continued: Seq<Seq<u8>>,
    input: Seq<u8>,
    error: FramingError,
)
    requires
        1 <= first.len() <= 1048576,
        forall|i: int|
            0 <= i < continued.len() ==> 1 <= (#[trigger] continued[i]).len() <= 1048576,
        chunk::chunk_at(input) == Err::<Option<(ChunkKind, Seq<u8>)>, FramingError>(error),
    ensures
        record::record_at(input) == (
            Err::<Option<Seq<u8>>, FramingError>(error),
            chunk::chunk_rest(input),
        ),
        record::record_at(
            chunk::chunk_bytes(ChunkKind::Start, first) + (continuation_bytes(continued) + input),
        ) == (Err::<Option<Seq<u8>>, FramingError>(error), chunk::chunk_rest(input)),
        record::record_at(Seq::empty()) == (
            Ok::<Option<Seq<u8>>, FramingError>(None),
            Seq::<u8>::empty(),
        ),
{
    chunk_round_trips(ChunkKind::Start, first, continuation_bytes(continued) + input);
    continuations_are_added(first, continued, input);
}

/// A reader never asks for a byte behind the chunk that it is in: it wants the
/// first byte, the three others of the header, and then as many as the header
/// says, and keeps what it holds of the record meanwhile.
pub proof fn reader_wants_one_chunk_at_a_time(
    record: Option<Seq<u8>>,
    first: u8,
    others: Seq<u8>,
)
    requires
        others.len() == 3,
    ensures
        ({
            let boundary = ReaderView { stage: ReadStage::Boundary, record };
            let length = first + 256 * others[0] + 65536 * others[1] + 16777216 * (others[2] as int
                % 64);
            &&& boundary.wanted() == 1
            &&& boundary.supplied(seq![first]) matches ProgressView::More(header)
            &&& header.wanted() == 3
            &&& header.record == record
            &&& if 1 <= length <= 1048576 {
                &&& header.supplied(others) matches ProgressView::More(payload)
                &&& payload.wanted() == length
                &&& payload.record == record
            } else {
                header.supplied(others) == ProgressView::Refused(FramingError::ChunkSize)
            }
        }),
{
}

/// A reader that gets less than it wants says that the stream ended, and
/// whether that was due: only before a record it was.
pub proof fn short_supply_ends_the_reading(reader: ReaderView, bytes: Seq<u8>)
    requires
        bytes.len() < reader.wanted(),
    ensures
        reader.stage == ReadStage::Boundary && reader.record is None ==> reader.supplied(bytes)
            == ProgressView::EndOfStream,
        reader.stage == ReadStage::Boundary && reader.record is Some ==> reader.supplied(bytes)
            == ProgressView::Refused(FramingError::EndedEarly),
        reader.stage != ReadStage::Boundary ==> reader.supplied(bytes) == ProgressView::Refused(
            FramingError::Truncated,
        ),
{
}

} // verus!
