use gob::error::{Error, MessageReadError, ParseFault};
use gob::message::{Cursor, Message};
use gob::varint::swap_bytes64;

fn reader(bytes: Vec<u8>) -> Message<Cursor> {
    Message::new(Cursor::new(bytes))
}

fn written<F: FnOnce(&mut Message<Vec<u8>>)>(f: F) -> Vec<u8> {
    let mut msg = Message::new(Vec::new());
    f(&mut msg);
    msg.into_inner()
}

#[test]
fn uvarint_small_reads_as_itself() {
    let mut msg = reader(vec![0x05]);
    assert_eq!(msg.read_uint().unwrap(), 5);
}

#[test]
fn uvarint_small_writes_as_itself() {
    assert_eq!(written(|m| m.write_uint(5)), vec![0x05]);
}

#[test]
fn uvarint_wide_reads_256() {
    let mut msg = reader(vec![0xFE, 0x01, 0x00]);
    assert_eq!(msg.read_uint().unwrap(), 256);
}

#[test]
fn uvarint_wide_writes_256() {
    assert_eq!(written(|m| m.write_uint(256)), vec![0xFE, 0x01, 0x00]);
}

#[test]
fn uvarint_boundary_widths() {
    assert_eq!(written(|m| m.write_uint(127)), vec![0x7F]);
    assert_eq!(written(|m| m.write_uint(128)), vec![0xFF, 0x80]);
    assert_eq!(written(|m| m.write_uint(255)), vec![0xFF, 0xFF]);
    assert_eq!(written(|m| m.write_uint(65536)), vec![0xFD, 0x01, 0x00, 0x00]);
    assert_eq!(
        written(|m| m.write_uint(u64::MAX)),
        vec![0xF8, 0xFF, 0xFF, 0xFF, 0xFF, 0xFF, 0xFF, 0xFF, 0xFF]
    );
}

#[test]
fn uvarint_round_trips_across_widths() {
    let samples: Vec<u64> = vec![
        0,
        1,
        127,
        128,
        255,
        256,
        65535,
        65536,
        1 << 24,
        (1 << 32) - 1,
        1 << 56,
        u64::MAX,
    ];
    for n in samples {
        let bytes = written(|m| m.write_uint(n));
        let mut msg = reader(bytes);
        assert_eq!(msg.read_uint().unwrap(), n);
    }
}

#[test]
fn ivarint_zigzag_small_negatives() {
    assert_eq!(written(|m| m.write_int(-1)), vec![0x01]);
    assert_eq!(written(|m| m.write_int(1)), vec![0x02]);
    assert_eq!(written(|m| m.write_int(-2)), vec![0x03]);
}

#[test]
fn ivarint_round_trips_across_range() {
    let samples: Vec<i64> = vec![0, 1, -1, 2, -2, 63, -64, 64, 12345, -12345, i64::MAX, i64::MIN];
    for n in samples {
        let bytes = written(|m| m.write_int(n));
        let mut msg = reader(bytes);
        assert_eq!(msg.read_int().unwrap(), n);
    }
}

#[test]
fn float_encodes_byte_reversed() {
    // the classic example: 17.0 packs into three bytes
    let bits = 17.0f64.to_bits();
    assert_eq!(written(|m| m.write_float(bits)), vec![0xFE, 0x31, 0x40]);
    let bits_half = 17.5f64.to_bits();
    assert_eq!(written(|m| m.write_float(bits_half)), vec![0xFD, 0x80, 0x31, 0x40]);
}

#[test]
fn float_round_trips_bit_exactly() {
    let samples: Vec<f64> = vec![0.0, -0.0, 1.0, -1.5, 17.0, 17.5, 1.0e300, f64::INFINITY];
    for f in samples {
        let bytes = written(|m| m.write_float(f.to_bits()));
        let mut msg = reader(bytes);
        let bits = msg.read_float().unwrap();
        assert_eq!(f64::from_bits(bits).to_bits(), f.to_bits());
    }
}

#[test]
fn swap_bytes_is_involutive() {
    for x in [0u64, 1, 0x0123_4567_89AB_CDEF, u64::MAX] {
        assert_eq!(swap_bytes64(swap_bytes64(x)), x);
    }
}

#[test]
fn bool_reads_zero_and_one_only() {
    let mut msg = reader(vec![0x00, 0x01, 0x02]);
    assert_eq!(msg.read_bool().unwrap(), false);
    assert_eq!(msg.read_bool().unwrap(), true);
    match msg.read_bool() {
        Err(MessageReadError::Parse(ParseFault::IntegerOverflow)) => {},
        other => panic!("expected the integer overflow fault, got {:?}", other),
    }
}

#[test]
fn bool_writes_zero_and_one() {
    assert_eq!(written(|m| m.write_bool(false)), vec![0x00]);
    assert_eq!(written(|m| m.write_bool(true)), vec![0x01]);
}

#[test]
fn bytes_round_trip_with_length_prefix() {
    let bytes = written(|m| m.write_bytes(&vec![b'a', b'b', b'c']));
    assert_eq!(bytes, vec![0x03, b'a', b'b', b'c']);
    let mut msg = reader(bytes);
    assert_eq!(msg.read_bytes().unwrap(), vec![b'a', b'b', b'c']);
}

#[test]
fn bytes_len_checks_the_payload_is_present() {
    let mut msg = reader(vec![0x05, b'a']);
    match msg.read_bytes_len() {
        Err(MessageReadError::Incomplete) => {},
        other => panic!("expected incomplete, got {:?}", other),
    }
}

#[test]
fn uvarint_incomplete_when_bytes_run_out() {
    let mut msg = reader(vec![0xFE, 0x01]);
    match msg.read_uint() {
        Err(MessageReadError::Incomplete) => {},
        other => panic!("expected incomplete, got {:?}", other),
    }
}

#[test]
fn uvarint_header_over_eight_bytes_is_malformed() {
    // header 0x85 announces 123 following bytes: no u64 lives there
    let mut msg = reader(vec![0x85, 0x00, 0x00]);
    match msg.read_uint() {
        Err(MessageReadError::Parse(ParseFault::MalformedVarint)) => {},
        other => panic!("expected the malformed varint fault, got {:?}", other),
    }
}

#[test]
fn message_accessors_hand_back_the_buffer() {
    let msg = Message::new(vec![1u8, 2, 3]);
    assert_eq!(msg.get_ref().len(), 3);
    let mut msg = msg;
    msg.get_mut().push(4);
    assert_eq!(msg.into_inner(), vec![1, 2, 3, 4]);
}

#[test]
fn error_messages_are_fixed_texts() {
    assert_eq!(Error::UnexpectedEof.message(), "unexpected end of file");
    assert_eq!(Error::SchemaMismatch.message(), "schema mismatch");
    assert_eq!(Error::Parse(ParseFault::MalformedVarint).message(), "malformed varint");
    assert_eq!(Error::Parse(ParseFault::IntegerOverflow).message(), "integer overflow");
    assert_eq!(Error::Parse(ParseFault::TypeIdMismatch).message(), "type id mismatch");
    assert_eq!(
        Error::Parse(ParseFault::NotSingletonNorStruct).message(),
        "neither a singleton nor a struct value"
    );
    assert_eq!(Error::Parse(ParseFault::TypeNotDefined).message(), "type not defined");
    assert_eq!(Error::Parse(ParseFault::TypeRedefined).message(), "type id redefined");
    assert_eq!(Error::Parse(ParseFault::UnknownField).message(), "unknown struct field");
    assert_eq!(Error::Parse(ParseFault::LengthMismatch).message(), "array length mismatch");
    assert_eq!(Error::Parse(ParseFault::UnsupportedType).message(), "unsupported type");
}
