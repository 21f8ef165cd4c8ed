use companion::chunk::{
    decode_header, header_from_bytes, read_chunk, write_chunk, ChunkKind, MAX_PHYSICAL_CHUNK_BYTES,
};
use companion::error::{ErrorKind, FramingError};
use companion::json::{
    lookup_text, parsed_record, read_json_record, write_json_record, RecordError,
};
use companion::record::{plan_record, read_record, write_record, PlannedChunk};
use companion::stream::{Progress, RecordReader};
use serde_json::Value;

fn object(members: Vec<(&str, Value)>) -> Value {
    let mut map = serde_json::Map::new();
    for (key, value) in members {
        map.insert(key.to_owned(), value);
    }
    Value::Object(map)
}

/// Feeds a reader from `input` until the record is complete or refused.
fn read_in_pieces(input: &[u8]) -> (Result<Option<Vec<u8>>, FramingError>, usize) {
    let mut reader = RecordReader::new();
    let mut position = 0;
    loop {
        let end = input.len().min(position + reader.wanted());
        let bytes = input[position..end].to_vec();
        position = end;
        match reader.supply(bytes) {
            Progress::More(next) => reader = next,
            Progress::Record(record) => return (Ok(Some(record)), position),
            Progress::EndOfStream => return (Ok(None), position),
            Progress::Refused(error) => return (Err(error), position),
        }
    }
}

fn patterned(length: usize) -> Vec<u8> {
    (0..length).map(|index| (index % 251) as u8).collect()
}

#[test]
fn large_json_record_round_trips_through_chunk_sequence() {
    let value = object(vec![
        ("type", Value::from("message")),
        ("v", Value::from(5)),
        ("target", Value::from("broadcast")),
        ("payload", Value::from("x".repeat(MAX_PHYSICAL_CHUNK_BYTES + 257))),
    ]);
    let mut encoded = Vec::new();
    write_json_record(&mut encoded, &value).unwrap();
    let decoded = read_json_record(&mut encoded.as_slice())
        .unwrap()
        .unwrap();
    assert_eq!(decoded, value);
}

#[test]
fn continuation_cannot_start_a_record() {
    let mut encoded = Vec::new();
    write_chunk(&mut encoded, ChunkKind::Continue, b"{}").unwrap();
    assert_eq!(
        read_json_record(&mut encoded.as_slice())
            .unwrap_err()
            .kind(),
        ErrorKind::InvalidData,
    );
}

#[test]
fn end_cannot_start_a_record() {
    let mut encoded = Vec::new();
    write_chunk(&mut encoded, ChunkKind::End, b"{}").unwrap();
    assert_eq!(read_record(&mut encoded.as_slice()), Err(FramingError::StrayContinuation));
}

#[test]
fn header_bits_name_the_kind() {
    assert_eq!(ChunkKind::decode(0), Ok(ChunkKind::Single));
    assert_eq!(ChunkKind::decode(0x3fff_ffff), Ok(ChunkKind::Single));
    assert_eq!(ChunkKind::decode(0x4000_0000), Ok(ChunkKind::Start));
    assert_eq!(ChunkKind::decode(0x8000_0001), Ok(ChunkKind::Continue));
    assert_eq!(ChunkKind::decode(u32::MAX), Ok(ChunkKind::End));
}

#[test]
fn kinds_have_their_codes() {
    assert_eq!(ChunkKind::Single.code(), 0);
    assert_eq!(ChunkKind::Start.code(), 1);
    assert_eq!(ChunkKind::Continue.code(), 2);
    assert_eq!(ChunkKind::End.code(), 3);
}

#[test]
fn header_is_little_endian() {
    assert_eq!(header_from_bytes(&[0x78, 0x56, 0x34, 0x12]), 0x1234_5678);
    assert_eq!(decode_header(0x4000_0007), Ok((ChunkKind::Start, 7)));
    assert_eq!(decode_header(0x4000_0000), Err(FramingError::ChunkSize));
    assert_eq!(decode_header(0x0010_0000), Ok((ChunkKind::Single, 0x10_0000)));
    assert_eq!(decode_header(0x0010_0001), Err(FramingError::ChunkSize));
}

#[test]
fn chunk_is_written_behind_its_header() {
    let mut encoded = vec![9];
    write_chunk(&mut encoded, ChunkKind::End, b"abc").unwrap();
    assert_eq!(encoded, vec![9, 3, 0, 0, 0xc0, b'a', b'b', b'c']);
}

#[test]
fn chunk_sizes_are_limited_on_writing() {
    let mut encoded = Vec::new();
    assert_eq!(
        write_chunk(&mut encoded, ChunkKind::Single, b""),
        Err(FramingError::PayloadSize)
    );
    assert_eq!(
        write_chunk(&mut encoded, ChunkKind::Single, &patterned(MAX_PHYSICAL_CHUNK_BYTES + 1)),
        Err(FramingError::PayloadSize)
    );
    assert!(encoded.is_empty());
    write_chunk(&mut encoded, ChunkKind::Single, &patterned(MAX_PHYSICAL_CHUNK_BYTES)).unwrap();
    assert_eq!(encoded.len(), MAX_PHYSICAL_CHUNK_BYTES + 4);
}

#[test]
fn chunk_sizes_are_limited_on_reading() {
    let empty = [0, 0, 0, 0x40, 1, 2];
    let mut reader = &empty[..];
    assert_eq!(read_chunk(&mut reader), Err(FramingError::ChunkSize));
    assert_eq!(reader, &[1, 2]);
    let long = [1, 0, 0x10, 0, 1, 2];
    assert_eq!(read_chunk(&mut &long[..]), Err(FramingError::ChunkSize));
}

#[test]
fn chunk_is_read_off_the_front() {
    let bytes = [2, 0, 0, 0x80, 7, 8, 9];
    let mut reader = &bytes[..];
    assert_eq!(read_chunk(&mut reader), Ok(Some((ChunkKind::Continue, vec![7, 8]))));
    assert_eq!(reader, &[9]);
    assert_eq!(read_chunk(&mut reader), Err(FramingError::Truncated));
    assert_eq!(read_chunk(&mut reader), Ok(None));
}

#[test]
fn errors_have_their_kind_and_text() {
    let cases = vec![
        (FramingError::Truncated, ErrorKind::UnexpectedEof, "failed to fill whole buffer"),
        (
            FramingError::ChunkSize,
            ErrorKind::InvalidData,
            "companion physical chunk has an invalid size",
        ),
        (
            FramingError::PayloadSize,
            ErrorKind::InvalidInput,
            "companion physical chunk has an invalid size",
        ),
        (
            FramingError::EndedEarly,
            ErrorKind::UnexpectedEof,
            "companion record ended before its final chunk",
        ),
        (
            FramingError::ChunkSequence,
            ErrorKind::InvalidData,
            "companion record contains an invalid chunk sequence",
        ),
        (
            FramingError::StrayContinuation,
            ErrorKind::InvalidData,
            "companion record starts with a continuation chunk",
        ),
        (
            FramingError::EmptyRecord,
            ErrorKind::InvalidData,
            "companion record cannot be empty",
        ),
    ];
    for (error, kind, message) in cases {
        assert_eq!(error.kind(), kind);
        assert_eq!(error.message(), message);
    }
}

#[test]
fn records_are_cut_at_the_limit() {
    let limit = MAX_PHYSICAL_CHUNK_BYTES;
    assert_eq!(plan_record(0), Err(FramingError::EmptyRecord));
    assert_eq!(
        plan_record(1),
        Ok(vec![PlannedChunk { kind: ChunkKind::Single, start: 0, end: 1 }])
    );
    assert_eq!(
        plan_record(limit),
        Ok(vec![PlannedChunk { kind: ChunkKind::Single, start: 0, end: limit }])
    );
    assert_eq!(
        plan_record(limit + 1),
        Ok(vec![
            PlannedChunk { kind: ChunkKind::Start, start: 0, end: limit },
            PlannedChunk { kind: ChunkKind::End, start: limit, end: limit + 1 },
        ])
    );
    assert_eq!(
        plan_record(3 * limit),
        Ok(vec![
            PlannedChunk { kind: ChunkKind::Start, start: 0, end: limit },
            PlannedChunk { kind: ChunkKind::Continue, start: limit, end: 2 * limit },
            PlannedChunk { kind: ChunkKind::End, start: 2 * limit, end: 3 * limit },
        ])
    );
}

#[test]
fn records_round_trip_in_order() {
    let payloads = vec![
        patterned(1),
        patterned(MAX_PHYSICAL_CHUNK_BYTES),
        patterned(2 * MAX_PHYSICAL_CHUNK_BYTES + 3),
        b"last".to_vec(),
    ];
    let mut encoded = Vec::new();
    for payload in &payloads {
        write_record(&mut encoded, payload).unwrap();
    }
    let mut reader = encoded.as_slice();
    for payload in &payloads {
        assert_eq!(read_record(&mut reader), Ok(Some(payload.clone())));
    }
    assert_eq!(read_record(&mut reader), Ok(None));
}

#[test]
fn empty_record_is_not_written() {
    let mut encoded = vec![1];
    assert_eq!(write_record(&mut encoded, b""), Err(FramingError::EmptyRecord));
    assert_eq!(encoded, vec![1]);
}

#[test]
fn cut_records_are_noticed() {
    let mut encoded = Vec::new();
    write_record(&mut encoded, &patterned(MAX_PHYSICAL_CHUNK_BYTES + 2)).unwrap();
    let first = MAX_PHYSICAL_CHUNK_BYTES + 4;
    for length in [1, 3, 4, 100, first - 1, first, first + 1, encoded.len() - 1] {
        let expected = if length == first { FramingError::EndedEarly } else { FramingError::Truncated };
        assert_eq!(read_record(&mut &encoded[..length]), Err(expected));
        assert_eq!(expected.kind(), ErrorKind::UnexpectedEof);
    }
}

#[test]
fn records_cannot_nest() {
    for kind in [ChunkKind::Single, ChunkKind::Start] {
        let mut encoded = Vec::new();
        write_chunk(&mut encoded, ChunkKind::Start, b"a").unwrap();
        write_chunk(&mut encoded, kind, b"b").unwrap();
        assert_eq!(read_record(&mut encoded.as_slice()), Err(FramingError::ChunkSequence));
    }
}

#[test]
fn records_cannot_nest_behind_continuations() {
    for kind in [ChunkKind::Single, ChunkKind::Start] {
        for continued in 0..4 {
            let mut encoded = Vec::new();
            write_chunk(&mut encoded, ChunkKind::Start, b"a").unwrap();
            for _ in 0..continued {
                write_chunk(&mut encoded, ChunkKind::Continue, b"b").unwrap();
            }
            write_chunk(&mut encoded, kind, b"c").unwrap();
            encoded.extend_from_slice(b"rest");
            let mut reader = encoded.as_slice();
            assert_eq!(read_record(&mut reader), Err(FramingError::ChunkSequence));
            assert_eq!(reader, b"rest");
        }
    }
}

#[test]
fn stray_continuation_is_taken_off_the_stream() {
    for kind in [ChunkKind::Continue, ChunkKind::End] {
        let mut encoded = Vec::new();
        write_chunk(&mut encoded, kind, b"{}").unwrap();
        encoded.extend_from_slice(b"rest");
        let mut reader = encoded.as_slice();
        assert_eq!(read_record(&mut reader), Err(FramingError::StrayContinuation));
        assert_eq!(reader, b"rest");
    }
}

#[test]
fn reading_in_pieces_finds_the_same() {
    let mut inputs: Vec<Vec<u8>> = vec![vec![], vec![1], vec![1, 0, 0, 0x40], vec![0, 0, 0, 0, 5]];
    for kinds in [
        vec![ChunkKind::Single],
        vec![ChunkKind::End],
        vec![ChunkKind::Continue, ChunkKind::End],
        vec![ChunkKind::Start],
        vec![ChunkKind::Start, ChunkKind::End],
        vec![ChunkKind::Start, ChunkKind::Continue, ChunkKind::End],
        vec![ChunkKind::Start, ChunkKind::Continue, ChunkKind::Single],
        vec![ChunkKind::Start, ChunkKind::Start],
    ] {
        let mut encoded = Vec::new();
        for kind in kinds {
            write_chunk(&mut encoded, kind, b"xyz").unwrap();
        }
        encoded.extend_from_slice(&[5, 6]);
        inputs.push(encoded);
    }
    for input in inputs {
        let mut reader = input.as_slice();
        let whole = read_record(&mut reader);
        let (pieces, position) = read_in_pieces(&input);
        assert_eq!(pieces, whole);
        assert_eq!(&input[position..], reader);
    }
}

#[test]
fn reader_says_what_it_wants() {
    let reader = RecordReader::new();
    assert!(reader.at_boundary());
    assert_eq!(reader.wanted(), 1);
    let Progress::More(reader) = reader.supply(vec![2]) else {
        panic!("a first byte is not a record");
    };
    assert!(!reader.at_boundary());
    assert_eq!(reader.wanted(), 3);
    let Progress::More(reader) = reader.supply(vec![0, 0, 0x40]) else {
        panic!("a header is not a record");
    };
    assert_eq!(reader.wanted(), 2);
    let Progress::More(reader) = reader.supply(vec![7, 8]) else {
        panic!("a record does not end with its first chunk");
    };
    assert!(reader.at_boundary());
    assert_eq!(reader.wanted(), 1);
    assert!(matches!(reader.supply(vec![]), Progress::Refused(FramingError::EndedEarly)));
}

#[test]
fn json_record_holds_compact_text() {
    let value = object(vec![
        ("b", Value::from("x\n")),
        ("a", Value::Array(vec![Value::Null, Value::from(true), Value::from(-3)])),
    ]);
    let mut encoded = Vec::new();
    write_json_record(&mut encoded, &value).unwrap();
    assert_eq!(
        read_record(&mut encoded.as_slice()).unwrap().unwrap(),
        br#"{"a":[null,true,-3],"b":"x\n"}"#.to_vec()
    );
    assert_eq!(read_json_record(&mut encoded.as_slice()).unwrap(), Some(value));
}

#[test]
fn json_records_without_fractions_read_back() {
    let mut nested = Value::from(u64::MAX);
    for _ in 0..127 {
        nested = Value::Array(vec![nested]);
    }
    for value in [
        Value::Null,
        Value::from(i64::MIN),
        Value::from("a 1e5 \u{1F600} \u{1} \\ \""),
        nested,
    ] {
        let mut encoded = Vec::new();
        write_json_record(&mut encoded, &value).unwrap();
        assert_eq!(read_json_record(&mut encoded.as_slice()).unwrap(), Some(value));
    }
}

#[test]
fn json_strings_and_wide_values_read_back() {
    for value in [
        Value::from("1.5 and 2e7 [[[ {{{ \\ \" 3.0"),
        Value::Array(vec![Value::Array(Vec::new()); 300]),
        Value::from("[".repeat(300)),
        object(vec![("9.9\"", Value::from(i64::MIN)), ("}", Value::Bool(true))]),
    ] {
        let mut encoded = Vec::new();
        write_json_record(&mut encoded, &value).unwrap();
        let read = read_json_record(&mut encoded.as_slice()).unwrap();
        assert_eq!(read, Some(value));
    }
}

#[test]
fn json_that_nests_too_deeply_does_not_read_back() {
    let mut nested = Value::Null;
    for _ in 0..128 {
        nested = Value::Array(vec![nested]);
    }
    let mut encoded = Vec::new();
    write_json_record(&mut encoded, &nested).unwrap();
    assert!(matches!(
        read_json_record(&mut encoded.as_slice()),
        Err(RecordError::Json(_))
    ));
}

#[test]
fn json_fractions_show_a_point_or_an_exponent() {
    for (number, text) in [(100.0, "100.0"), (1.5, "1.5"), (1e300, "1e+300"), (-0.0, "-0.0")] {
        let mut encoded = Vec::new();
        write_json_record(&mut encoded, &Value::from(number)).unwrap();
        assert_eq!(
            read_record(&mut encoded.as_slice()).unwrap().unwrap(),
            text.as_bytes().to_vec()
        );
    }
}

#[test]
fn payload_that_is_not_json_is_refused() {
    let mut encoded = Vec::new();
    write_record(&mut encoded, b"{\"a\":").unwrap();
    write_record(&mut encoded, b"7").unwrap();
    let mut reader = encoded.as_slice();
    let error = read_json_record(&mut reader).unwrap_err();
    assert!(matches!(error, RecordError::Json(_)));
    assert_eq!(error.kind(), ErrorKind::Other);
    assert_eq!(read_json_record(&mut reader).unwrap(), Some(Value::from(7)));
    assert_eq!(read_json_record(&mut reader).unwrap(), None);
}

#[test]
fn parsed_values_become_records() {
    assert_eq!(parsed_record(Ok(Value::from(1))).unwrap(), Some(Value::from(1)));
    let error = serde_json::from_slice::<Value>(b"?").unwrap_err();
    assert!(matches!(parsed_record(Err(error)), Err(RecordError::Json(_))));
}

#[test]
fn framing_failures_keep_their_kind() {
    let error = read_json_record(&mut &[1u8, 0][..]).unwrap_err();
    assert!(matches!(error, RecordError::Framing(FramingError::Truncated)));
    assert_eq!(error.kind(), ErrorKind::UnexpectedEof);
}

#[test]
fn only_text_members_are_found() {
    let value = object(vec![
        ("name", Value::from("text")),
        ("number", Value::from(1)),
        ("nothing", Value::Null),
    ]);
    assert_eq!(lookup_text(&value, "name"), Some("text"));
    assert_eq!(lookup_text(&value, "number"), None);
    assert_eq!(lookup_text(&value, "nothing"), None);
    assert_eq!(lookup_text(&value, "other"), None);
    assert_eq!(lookup_text(&Value::from("name"), "name"), None);
    assert_eq!(lookup_text(&Value::Array(vec![value]), "name"), None);
}
