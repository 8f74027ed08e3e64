use gob::buffer::Buffer;
use gob::decoder::{install_definition, Deserializer, NextValue, StreamDeserializer};
use gob::encoder::{encode_variant, StreamEncoder};
use gob::error::{Error, MessageReadError, ParseFault};
use gob::message::{Cursor, Message};
use gob::stream::{write_section, SectionStep, Stream};
use gob::types::{CommonType, FieldType, Types, WireType, INT_ID, STRING_ID, UINT_ID};
use gob::value::{decode_value, Value};

fn slice_of_int(id: i64) -> WireType {
    WireType::Slice { common: CommonType { name: b"[]int".to_vec(), id }, elem: INT_ID }
}

fn point_struct(id: i64) -> WireType {
    WireType::Struct {
        common: CommonType { name: b"Point".to_vec(), id },
        fields: vec![
            FieldType { name: b"X".to_vec(), id: INT_ID },
            FieldType { name: b"Y".to_vec(), id: INT_ID },
        ],
    }
}

#[test]
fn write_section_frames_length_type_id_payload() {
    let mut out = Vec::new();
    write_section(&mut out, 2, &vec![0x00, 0x01]);
    assert_eq!(out, vec![0x03, 0x04, 0x00, 0x01]);
}

#[test]
fn parse_section_reads_back_what_was_framed() {
    let mut out = Vec::new();
    write_section(&mut out, -3, &vec![0xAA, 0xBB, 0xCC]);
    let mut buf = Buffer::new();
    buf.feed(&out);
    let stream = Stream::new(());
    let header = stream.parse_section(&buf).unwrap();
    assert_eq!(header.type_id, -3);
    assert_eq!(&buf.data[header.payload_start..header.payload_end], &[0xAA, 0xBB, 0xCC]);
    assert_eq!(header.payload_end, out.len());
}

#[test]
fn parse_section_waits_for_missing_bytes() {
    let mut out = Vec::new();
    write_section(&mut out, 2, &vec![0x00, 0x01]);
    let stream = Stream::new(());
    for cut in 0..out.len() {
        let mut buf = Buffer::new();
        buf.feed(&out[..cut]);
        match stream.parse_section(&buf) {
            Err(MessageReadError::Incomplete) => {},
            other => panic!("prefix of {} bytes should be incomplete, got {:?}", cut, other),
        }
    }
}

#[test]
fn stream_bool_section_decodes_as_true() {
    // length 3, type id 2 (zig-zag 0x04), singleton prefix 0, body 1
    let bytes = vec![0x03, 0x04, 0x00, 0x01];
    let mut ds = StreamDeserializer::new(());
    ds.feed(&bytes);
    match ds.try_next_value(true).unwrap() {
        NextValue::Value(type_id, value) => {
            assert_eq!(type_id, 2);
            // read against the descriptor the body is the zig-zag of 1
            assert_eq!(value, Value::Int(-1));
        },
        other => panic!("expected a value, got {:?}", other),
    }
    // a caller asking for a boolean reads the same body as true
    let mut msg = Message::new(Cursor::new(vec![0x00, 0x01]));
    assert_eq!(msg.read_uint().unwrap(), 0);
    assert_eq!(msg.read_bool().unwrap(), true);
}

#[test]
fn struct_payload_of_single_zero_is_all_defaults() {
    let mut defs = Types::new();
    defs.insert(point_struct(70));
    let mut msg = Message::new(Cursor::new(vec![0x00]));
    let v = decode_value(&defs, 70, &mut msg).unwrap();
    assert_eq!(v, Value::Fields(vec![]));
}

#[test]
fn struct_payload_round_trips_present_fields() {
    let mut schema = Types::new();
    schema.insert(point_struct(70));
    let mut enc = StreamEncoder::new(schema);
    let value = Value::Fields(vec![(0, Value::Int(7)), (1, Value::Int(-7))]);
    enc.encode(70, &value).unwrap();
    let bytes = enc.take_output();

    let mut ds = StreamDeserializer::new(());
    ds.feed(&bytes);
    match ds.try_next_value(true).unwrap() {
        NextValue::Value(type_id, decoded) => {
            assert_eq!(type_id, 70);
            assert_eq!(decoded, value);
        },
        other => panic!("expected a value, got {:?}", other),
    }
    assert_eq!(ds.try_next_value(true).unwrap(), NextValue::End);
}

#[test]
fn slice_definition_and_value_round_trip() {
    let mut schema = Types::new();
    schema.insert(slice_of_int(65));
    let mut enc = StreamEncoder::new(schema);
    let value = Value::List(vec![
        Value::Int(-3),
        Value::Int(-2),
        Value::Int(-1),
        Value::Int(0),
        Value::Int(1),
    ]);
    enc.encode(65, &value).unwrap();
    let bytes = enc.take_output();

    let mut ds = StreamDeserializer::new(());
    ds.feed(&bytes);
    match ds.try_next_value(true).unwrap() {
        NextValue::Value(type_id, decoded) => {
            assert_eq!(type_id, 65);
            assert_eq!(decoded, value);
        },
        other => panic!("expected a value, got {:?}", other),
    }
    // the dictionary now holds the slice type at its declared id
    assert_eq!(ds.defs.lookup(65), Some(&slice_of_int(65)));
}

#[test]
fn feeding_byte_by_byte_yields_the_same_values() {
    let mut schema = Types::new();
    schema.insert(slice_of_int(65));
    schema.insert(point_struct(70));
    let mut enc = StreamEncoder::new(schema);
    enc.encode(65, &Value::List(vec![Value::Int(4), Value::Int(-4)])).unwrap();
    enc.encode(70, &Value::Fields(vec![(1, Value::Int(9))])).unwrap();
    enc.encode(65, &Value::List(vec![])).unwrap();
    let bytes = enc.take_output();

    // all at once
    let mut whole = StreamDeserializer::new(());
    whole.feed(&bytes);
    let mut expected = Vec::new();
    loop {
        match whole.try_next_value(true).unwrap() {
            NextValue::Value(tid, v) => expected.push((tid, v)),
            NextValue::End => break,
            NextValue::NeedBytes => unreachable!(),
        }
    }
    assert_eq!(expected.len(), 3);

    // one byte at a time
    let mut trickle = StreamDeserializer::new(());
    let mut got = Vec::new();
    for b in &bytes {
        trickle.feed(&[*b]);
        loop {
            match trickle.try_next_value(false).unwrap() {
                NextValue::Value(tid, v) => got.push((tid, v)),
                NextValue::NeedBytes => break,
                NextValue::End => unreachable!(),
            }
        }
    }
    assert_eq!(trickle.try_next_value(true).unwrap(), NextValue::End);
    assert_eq!(got, expected);
}

#[test]
fn empty_reader_is_a_clean_end() {
    let mut ds = StreamDeserializer::<()>::new(());
    assert_eq!(ds.try_next_value(true).unwrap(), NextValue::End);
}

#[test]
fn half_a_section_at_the_end_is_unexpected_eof() {
    let mut out = Vec::new();
    write_section(&mut out, 2, &vec![0x00, 0x01]);
    let mut ds = StreamDeserializer::new(());
    ds.feed(&out[..2]);
    assert_eq!(ds.try_next_value(false).unwrap(), NextValue::NeedBytes);
    match ds.try_next_value(true) {
        Err(Error::UnexpectedEof) => {},
        other => panic!("expected unexpected end of file, got {:?}", other),
    }
}

#[test]
fn singleton_with_nonzero_prefix_is_refused() {
    let defs = Types::new();
    let mut msg = Message::new(Cursor::new(vec![0x01, 0x05]));
    match decode_value(&defs, UINT_ID, &mut msg) {
        Err(e) => {
            assert_eq!(e, Error::Parse(ParseFault::NotSingletonNorStruct));
            assert_eq!(e.message(), "neither a singleton nor a struct value");
        },
        other => panic!("expected the singleton prefix fault, got {:?}", other),
    }
}

#[test]
fn type_definition_with_mismatched_id_is_refused() {
    // the stream header announces -65, the descriptor inside says 66
    let mut payload = Vec::new();
    gob::wire::write_wire_type(&mut payload, &slice_of_int(66)).unwrap();
    let mut out = Vec::new();
    write_section(&mut out, -65, &payload);
    let mut ds = StreamDeserializer::new(());
    ds.feed(&out);
    match ds.try_next_value(true) {
        Err(e) => {
            assert_eq!(e, Error::Parse(ParseFault::TypeIdMismatch));
            assert_eq!(e.message(), "type id mismatch");
        },
        other => panic!("expected the id mismatch fault, got {:?}", other),
    }
}

#[test]
fn redefining_a_live_id_is_refused() {
    let mut payload = Vec::new();
    gob::wire::write_wire_type(&mut payload, &slice_of_int(65)).unwrap();
    let mut out = Vec::new();
    write_section(&mut out, -65, &payload);
    write_section(&mut out, -65, &payload);
    let mut ds = StreamDeserializer::new(());
    ds.feed(&out);
    match ds.try_next_value(true) {
        Err(Error::Parse(ParseFault::TypeRedefined)) => {},
        other => panic!("expected the redefinition fault, got {:?}", other),
    }
}

#[test]
fn lookups_stay_stable_as_the_dictionary_grows() {
    let mut defs = Types::new();
    defs.insert(slice_of_int(65));
    assert_eq!(defs.lookup(65), Some(&slice_of_int(65)));
    defs.insert(point_struct(70));
    defs.insert(slice_of_int(65));
    assert_eq!(defs.lookup(65), Some(&slice_of_int(65)));
    assert_eq!(defs.lookup(70), Some(&point_struct(70)));
    assert_eq!(defs.lookup(99), None);
}

#[test]
fn install_definition_files_a_matching_descriptor() {
    let mut defs = Types::new();
    install_definition(&mut defs, -65, slice_of_int(65)).unwrap();
    assert_eq!(defs.lookup(65), Some(&slice_of_int(65)));
}

#[test]
fn value_of_an_undefined_type_is_refused() {
    let defs = Types::new();
    let mut msg = Message::new(Cursor::new(vec![0x00, 0x01]));
    match decode_value(&defs, 99, &mut msg) {
        Err(Error::Parse(ParseFault::TypeNotDefined)) => {},
        other => panic!("expected the undefined type fault, got {:?}", other),
    }
}

#[test]
fn interface_values_are_refused() {
    let defs = Types::new();
    let mut msg = Message::new(Cursor::new(vec![0x00, 0x01]));
    match decode_value(&defs, 8, &mut msg) {
        Err(Error::Parse(ParseFault::UnsupportedType)) => {},
        other => panic!("expected the unsupported type fault, got {:?}", other),
    }
}

#[test]
fn struct_delta_past_the_descriptor_is_refused() {
    let mut defs = Types::new();
    defs.insert(point_struct(70));
    // delta 3 addresses field index 2 of a two-field struct
    let mut msg = Message::new(Cursor::new(vec![0x03, 0x02, 0x00]));
    match decode_value(&defs, 70, &mut msg) {
        Err(Error::Parse(ParseFault::UnknownField)) => {},
        other => panic!("expected the unknown field fault, got {:?}", other),
    }
}

#[test]
fn array_with_wrong_count_is_refused() {
    let mut defs = Types::new();
    defs.insert(WireType::Array {
        common: CommonType { name: b"[2]int".to_vec(), id: 67 },
        elem: INT_ID,
        len: 2,
    });
    // singleton prefix 0, then a count of 3 against a declared length of 2
    let mut msg = Message::new(Cursor::new(vec![0x00, 0x03, 0x02, 0x02, 0x02]));
    match decode_value(&defs, 67, &mut msg) {
        Err(Error::Parse(ParseFault::LengthMismatch)) => {},
        other => panic!("expected the length mismatch fault, got {:?}", other),
    }
}

#[test]
fn map_pairs_round_trip() {
    let mut schema = Types::new();
    schema.insert(WireType::Mapping {
        common: CommonType { name: b"map[string]int".to_vec(), id: 68 },
        key: STRING_ID,
        elem: INT_ID,
    });
    let mut enc = StreamEncoder::new(schema);
    let value = Value::Pairs(vec![
        (Value::Str(b"one".to_vec()), Value::Int(1)),
        (Value::Str(b"two".to_vec()), Value::Int(2)),
    ]);
    enc.encode(68, &value).unwrap();
    let bytes = enc.take_output();
    let mut ds = StreamDeserializer::new(());
    ds.feed(&bytes);
    match ds.try_next_value(true).unwrap() {
        NextValue::Value(68, decoded) => assert_eq!(decoded, value),
        other => panic!("expected the map value, got {:?}", other),
    }
}

#[test]
fn nested_slices_round_trip() {
    let mut schema = Types::new();
    schema.insert(slice_of_int(65));
    schema.insert(WireType::Slice {
        common: CommonType { name: b"[][]int".to_vec(), id: 66 },
        elem: 65,
    });
    let mut enc = StreamEncoder::new(schema);
    let value = Value::List(vec![
        Value::List(vec![Value::Int(1)]),
        Value::List(vec![]),
        Value::List(vec![Value::Int(2), Value::Int(3)]),
    ]);
    enc.encode(66, &value).unwrap();
    let bytes = enc.take_output();
    let mut ds = StreamDeserializer::new(());
    ds.feed(&bytes);
    match ds.try_next_value(true).unwrap() {
        NextValue::Value(66, decoded) => assert_eq!(decoded, value),
        other => panic!("expected the nested value, got {:?}", other),
    }
    // both definitions arrived, the inner one first
    assert_eq!(ds.defs.lookup(65), Some(&slice_of_int(65)));
    assert!(ds.defs.lookup(66).is_some());
}

#[test]
fn encoding_a_value_against_the_wrong_shape_is_refused() {
    let schema = Types::new();
    let mut enc = StreamEncoder::new(schema);
    match enc.encode(INT_ID, &Value::Bool(true)) {
        Err(Error::SchemaMismatch) => {},
        other => panic!("expected the schema mismatch fault, got {:?}", other),
    }
}

#[test]
fn variant_framing_is_selector_body_trailer() {
    let defs = Types::new();
    let mut out = Vec::new();
    encode_variant(&defs, 0, INT_ID, &Value::Int(5), &mut out).unwrap();
    assert_eq!(out, vec![0x01, 0x0A, 0x00]);
}

#[test]
fn from_slice_decodes_a_framed_stream_in_memory() {
    let mut schema = Types::new();
    schema.insert(slice_of_int(65));
    let mut enc = StreamEncoder::new(schema);
    let value = Value::List(vec![Value::Int(6), Value::Int(7)]);
    enc.encode(65, &value).unwrap();
    let bytes = enc.take_output();
    let mut de = Deserializer::from_slice(bytes);
    assert_eq!(de.deserialize_value().unwrap(), value);
}

#[test]
fn read_section_reports_need_or_end_by_source_state() {
    let stream = Stream::new(());
    let buf = Buffer::new();
    match stream.read_section(&buf, false).unwrap() {
        SectionStep::NeedBytes => {},
        other => panic!("expected a request for bytes, got {:?}", other),
    }
    match stream.read_section(&buf, true).unwrap() {
        SectionStep::End => {},
        other => panic!("expected a clean end, got {:?}", other),
    }
}

#[test]
fn stream_accessors_hand_back_the_source() {
    let stream = Stream::new(42u32);
    assert_eq!(*stream.get_ref(), 42);
    let mut stream = stream;
    *stream.get_mut() = 43;
    assert_eq!(stream.into_inner(), 43);
}

#[test]
fn buffer_feed_and_advance_keep_the_window_straight() {
    let mut buf = Buffer::new();
    buf.feed(&[1, 2, 3]);
    buf.feed(&[4, 5]);
    assert_eq!(buf.len(), 5);
    buf.advance(2);
    assert_eq!(buf.data, vec![3, 4, 5]);
}

#[test]
fn array_with_declared_count_round_trips() {
    let mut schema = Types::new();
    schema.insert(WireType::Array {
        common: CommonType { name: b"[3]int".to_vec(), id: 69 },
        elem: INT_ID,
        len: 3,
    });
    let mut enc = StreamEncoder::new(schema);
    let value = Value::List(vec![Value::Int(10), Value::Int(20), Value::Int(30)]);
    enc.encode(69, &value).unwrap();
    let bytes = enc.take_output();
    let mut ds = StreamDeserializer::new(());
    ds.feed(&bytes);
    match ds.try_next_value(true).unwrap() {
        NextValue::Value(69, decoded) => assert_eq!(decoded, value),
        other => panic!("expected the array value, got {:?}", other),
    }
}

#[test]
fn complex_value_round_trips_both_bit_patterns() {
    let schema = Types::new();
    let mut enc = StreamEncoder::new(schema);
    let value = Value::Complex(1.5f64.to_bits(), (-2.25f64).to_bits());
    enc.encode(7, &value).unwrap();
    let bytes = enc.take_output();
    let mut ds = StreamDeserializer::new(());
    ds.feed(&bytes);
    match ds.try_next_value(true).unwrap() {
        NextValue::Value(7, decoded) => assert_eq!(decoded, value),
        other => panic!("expected the complex value, got {:?}", other),
    }
}

#[test]
fn string_and_bytes_values_round_trip() {
    let schema = Types::new();
    let mut enc = StreamEncoder::new(schema);
    enc.encode(6, &Value::Str(b"hello".to_vec())).unwrap();
    enc.encode(5, &Value::Bytes(vec![0, 255, 128])).unwrap();
    let bytes = enc.take_output();
    let mut ds = StreamDeserializer::new(());
    ds.feed(&bytes);
    match ds.try_next_value(true).unwrap() {
        NextValue::Value(6, v) => assert_eq!(v, Value::Str(b"hello".to_vec())),
        other => panic!("expected the string value, got {:?}", other),
    }
    match ds.try_next_value(true).unwrap() {
        NextValue::Value(5, v) => assert_eq!(v, Value::Bytes(vec![0, 255, 128])),
        other => panic!("expected the bytes value, got {:?}", other),
    }
    assert_eq!(ds.try_next_value(true).unwrap(), NextValue::End);
}

#[test]
fn section_with_malformed_type_id_is_refused() {
    // length 1 announced, but the type id inside opens a nine-byte width
    let mut ds = StreamDeserializer::new(());
    ds.feed(&[0x01, 0x85]);
    match ds.try_next_value(true) {
        Err(e) => {
            assert_eq!(e, Error::Parse(ParseFault::MalformedVarint));
            assert_eq!(e.message(), "malformed varint");
        },
        other => panic!("expected the malformed varint fault, got {:?}", other),
    }
}

#[test]
fn definition_with_omitted_fields_takes_defaults() {
    // a slice descriptor whose CommonType skips the name: delta 2
    // addresses the id straight away, and the name defaults to empty
    let mut ds = StreamDeserializer::new(());
    let payload = vec![
        0x02, // wireType field 1: SliceT
        0x01, // sliceType field 0: CommonType
        0x02, // common field 1: Id (the name is skipped)
        0xFF, // one wide byte follows
        0x82, // zig-zag of 65
        0x00, // end of CommonType
        0x01, // sliceType field 1: Elem
        0x04, // zig-zag of 2
        0x00, // end of sliceType
        0x00, // end of wireType
    ];
    let mut out = Vec::new();
    write_section(&mut out, -65, &payload);
    ds.feed(&out);
    assert_eq!(ds.try_next_value(true).unwrap(), NextValue::End);
    assert_eq!(
        ds.defs.lookup(65),
        Some(&WireType::Slice { common: CommonType { name: vec![], id: 65 }, elem: INT_ID })
    );
}

#[test]
fn definition_with_unknown_arm_is_refused() {
    // wireType delta 5 addresses a fifth arm that does not exist
    let mut ds = StreamDeserializer::new(());
    let payload = vec![0x05, 0x00];
    let mut out = Vec::new();
    write_section(&mut out, -65, &payload);
    ds.feed(&out);
    match ds.try_next_value(true) {
        Err(e) => {
            assert_eq!(e, Error::Parse(ParseFault::UnknownField));
            assert_eq!(e.message(), "unknown struct field");
        },
        other => panic!("expected the unknown field fault, got {:?}", other),
    }
}

#[test]
fn from_slice_decodes_raw_bytes() {
    let mut de = Deserializer::from_slice(vec![0x03, 0x04, 0x00, 0x04]);
    assert_eq!(de.deserialize_value().unwrap(), Value::Int(2));
}

#[test]
fn decoding_and_reencoding_reproduces_the_bytes() {
    let mut schema = Types::new();
    schema.insert(slice_of_int(65));
    let mut enc = StreamEncoder::new(schema);
    let value = Value::List(vec![Value::Int(11), Value::Int(-12), Value::Int(13)]);
    enc.encode(65, &value).unwrap();
    let bytes = enc.take_output();

    let mut ds = StreamDeserializer::new(());
    ds.feed(&bytes);
    let decoded = match ds.try_next_value(true).unwrap() {
        NextValue::Value(65, v) => v,
        other => panic!("expected the slice value, got {:?}", other),
    };

    let mut schema_again = Types::new();
    schema_again.insert(slice_of_int(65));
    let mut enc_again = StreamEncoder::new(schema_again);
    enc_again.encode(65, &decoded).unwrap();
    assert_eq!(enc_again.take_output(), bytes);
}

#[test]
fn the_first_user_id_gets_its_definition() {
    // 64 is the first user id: its definition section must be emitted
    let mut schema = Types::new();
    schema.insert(slice_of_int(64));
    let mut enc = StreamEncoder::new(schema);
    let value = Value::List(vec![Value::Int(8)]);
    enc.encode(64, &value).unwrap();
    let bytes = enc.take_output();
    let mut ds = StreamDeserializer::new(());
    ds.feed(&bytes);
    match ds.try_next_value(true).unwrap() {
        NextValue::Value(64, decoded) => assert_eq!(decoded, value),
        other => panic!("expected the slice value, got {:?}", other),
    }
    assert_eq!(ds.defs.lookup(64), Some(&slice_of_int(64)));
}
