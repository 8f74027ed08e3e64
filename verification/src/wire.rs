use vstd::prelude::*;

use crate::error::{Error, ParseFault};
use crate::message::{Cursor, Message};
use crate::types::{CommonType, FieldType, WireType};
use crate::varint::{ivarint, uvarint, uvarint_at, uvarint_bad, write_ivarint, write_uvarint};

verus! {

// ---------------------------------------------------------------------------
// The bootstrap: a type-definition payload is a value of the wire-type
// descriptor, a struct of one of four arms (array, slice, struct, map),
// each carrying a CommonType. Its shape is fixed by the format, so it
// is parsed and written by dedicated struct-codec walks.
// ---------------------------------------------------------------------------
/// Parse the CommonType struct { Name, Id } at the cursor.
fn parse_common_type(msg: &mut Message<Cursor>) -> (r: Result<CommonType, Error>)
    requires
        old(msg).buf.wf(),
    ensures
        final(msg).buf.wf(),
        final(msg).buf.data == old(msg).buf.data,
        final(msg).buf.pos >= old(msg).buf.pos,
        r is Ok ==> final(msg).buf.pos > old(msg).buf.pos,
{
    let mut name: Vec<u8> = Vec::new();
    let mut id: i64 = 0;
    let mut next_base: u64 = 0;
    loop
        invariant
            msg.buf.wf(),
            msg.buf.data == old(msg).buf.data,
            msg.buf.pos >= old(msg).buf.pos,
            next_base <= 2,
        decreases msg.buf.remaining(),
    {
        let delta = match msg.read_uint() {
            Ok(v) => v,
            Err(e) => {
                return Err(Error::from_read(e));
            },
        };
        if delta == 0 {
            return Ok(CommonType { name, id });
        }
        if delta > 2 - next_base {
            return Err(Error::Parse(ParseFault::UnknownField));
        }
        let idx = next_base + delta - 1;
        if idx == 0 {
            name = match msg.read_bytes() {
                Ok(b) => b,
                Err(e) => {
                    return Err(Error::from_read(e));
                },
            };
        } else {
            id = match msg.read_int() {
                Ok(v) => v,
                Err(e) => {
                    return Err(Error::from_read(e));
                },
            };
        }
        next_base = idx + 1;
    }
}

/// Parse one fieldType struct { Name, Id } at the cursor.
fn parse_field_type(msg: &mut Message<Cursor>) -> (r: Result<FieldType, Error>)
    requires
        old(msg).buf.wf(),
    ensures
        final(msg).buf.wf(),
        final(msg).buf.data == old(msg).buf.data,
        final(msg).buf.pos >= old(msg).buf.pos,
        r is Ok ==> final(msg).buf.pos > old(msg).buf.pos,
{
    let c = match parse_common_type(msg) {
        Ok(c) => c,
        Err(e) => {
            return Err(e);
        },
    };
    Ok(FieldType { name: c.name, id: c.id })
}

/// Parse the field list of a struct descriptor: a count, then that
/// many fieldType structs.
fn parse_field_list(msg: &mut Message<Cursor>) -> (r: Result<Vec<FieldType>, Error>)
    requires
        old(msg).buf.wf(),
    ensures
        final(msg).buf.wf(),
        final(msg).buf.data == old(msg).buf.data,
        final(msg).buf.pos >= old(msg).buf.pos,
        r is Ok ==> final(msg).buf.pos > old(msg).buf.pos,
{
    let count = match msg.read_uint() {
        Ok(v) => v,
        Err(e) => {
            return Err(Error::from_read(e));
        },
    };
    let mut out: Vec<FieldType> = Vec::new();
    let mut i: u64 = 0;
    while i < count
        invariant
            msg.buf.wf(),
            msg.buf.data == old(msg).buf.data,
            msg.buf.pos > old(msg).buf.pos,
        decreases count - i,
    {
        let f = match parse_field_type(msg) {
            Ok(f) => f,
            Err(e) => {
                return Err(e);
            },
        };
        out.push(f);
        i = i + 1;
    }
    Ok(out)
}

/// Parse a whole wire-type descriptor: the payload of a
/// type-definition section. The leading delta picks the arm (array,
/// slice, struct or map), the arm's own struct follows, and a closing
/// `0` ends the descriptor.
pub fn parse_wire_type(msg: &mut Message<Cursor>) -> (r: Result<WireType, Error>)
    requires
        old(msg).buf.wf(),
    ensures
        final(msg).buf.wf(),
        final(msg).buf.data == old(msg).buf.data,
        final(msg).buf.pos >= old(msg).buf.pos,
        r is Ok ==> final(msg).buf.pos > old(msg).buf.pos,
        r matches Ok(w) ==> !(w is Builtin),
        ({
            let s = old(msg).buf.data@;
            let a = old(msg).buf.pos as int;
            let z = s.len() as int;
            uvarint_at(s, a, z) is None && !uvarint_bad(s, a, z)
        }) ==> r == Err::<WireType, Error>(Error::UnexpectedEof),
        ({
            let s = old(msg).buf.data@;
            let a = old(msg).buf.pos as int;
            let z = s.len() as int;
            uvarint_bad(s, a, z)
        }) ==> r == Err::<WireType, Error>(Error::Parse(ParseFault::MalformedVarint)),
        ({
            let s = old(msg).buf.data@;
            let a = old(msg).buf.pos as int;
            let z = s.len() as int;
            uvarint_at(s, a, z) matches Some((arm, _)) ==> ((arm == 0 || arm > 4) ==> r
                == Err::<WireType, Error>(Error::Parse(ParseFault::UnknownField)))
        }),
{
    let arm = match msg.read_uint() {
        Ok(v) => v,
        Err(e) => {
            return Err(Error::from_read(e));
        },
    };
    let wire_type: WireType;
    if arm == 1 {
        wire_type = match parse_array_type(msg) {
            Ok(w) => w,
            Err(e) => {
                return Err(e);
            },
        };
    } else if arm == 2 {
        wire_type = match parse_slice_type(msg) {
            Ok(w) => w,
            Err(e) => {
                return Err(e);
            },
        };
    } else if arm == 3 {
        wire_type = match parse_struct_type(msg) {
            Ok(w) => w,
            Err(e) => {
                return Err(e);
            },
        };
    } else if arm == 4 {
        wire_type = match parse_map_type(msg) {
            Ok(w) => w,
            Err(e) => {
                return Err(e);
            },
        };
    } else {
        return Err(Error::Parse(ParseFault::UnknownField));
    }
    let closing = match msg.read_uint() {
        Ok(v) => v,
        Err(e) => {
            return Err(Error::from_read(e));
        },
    };
    if closing != 0 {
        return Err(Error::Parse(ParseFault::UnknownField));
    }
    Ok(wire_type)
}

/// Parse the arrayType struct { CommonType, Elem, Len }.
fn parse_array_type(msg: &mut Message<Cursor>) -> (r: Result<WireType, Error>)
    requires
        old(msg).buf.wf(),
    ensures
        final(msg).buf.wf(),
        final(msg).buf.data == old(msg).buf.data,
        final(msg).buf.pos >= old(msg).buf.pos,
        r is Ok ==> final(msg).buf.pos > old(msg).buf.pos,
        r matches Ok(w) ==> w is Array,
{
    let mut common = CommonType { name: Vec::new(), id: 0 };
    let mut elem: i64 = 0;
    let mut len: i64 = 0;
    let mut next_base: u64 = 0;
    loop
        invariant
            msg.buf.wf(),
            msg.buf.data == old(msg).buf.data,
            msg.buf.pos >= old(msg).buf.pos,
            next_base <= 3,
        decreases msg.buf.remaining(),
    {
        let delta = match msg.read_uint() {
            Ok(v) => v,
            Err(e) => {
                return Err(Error::from_read(e));
            },
        };
        if delta == 0 {
            return Ok(WireType::Array { common, elem, len });
        }
        if delta > 3 - next_base {
            return Err(Error::Parse(ParseFault::UnknownField));
        }
        let idx = next_base + delta - 1;
        if idx == 0 {
            common = match parse_common_type(msg) {
                Ok(c) => c,
                Err(e) => {
                    return Err(e);
                },
            };
        } else if idx == 1 {
            elem = match msg.read_int() {
                Ok(v) => v,
                Err(e) => {
                    return Err(Error::from_read(e));
                },
            };
        } else {
            len = match msg.read_int() {
                Ok(v) => v,
                Err(e) => {
                    return Err(Error::from_read(e));
                },
            };
        }
        next_base = idx + 1;
    }
}

/// Parse the sliceType struct { CommonType, Elem }.
fn parse_slice_type(msg: &mut Message<Cursor>) -> (r: Result<WireType, Error>)
    requires
        old(msg).buf.wf(),
    ensures
        final(msg).buf.wf(),
        final(msg).buf.data == old(msg).buf.data,
        final(msg).buf.pos >= old(msg).buf.pos,
        r is Ok ==> final(msg).buf.pos > old(msg).buf.pos,
        r matches Ok(w) ==> w is Slice,
{
    let mut common = CommonType { name: Vec::new(), id: 0 };
    let mut elem: i64 = 0;
    let mut next_base: u64 = 0;
    loop
        invariant
            msg.buf.wf(),
            msg.buf.data == old(msg).buf.data,
            msg.buf.pos >= old(msg).buf.pos,
            next_base <= 2,
        decreases msg.buf.remaining(),
    {
        let delta = match msg.read_uint() {
            Ok(v) => v,
            Err(e) => {
                return Err(Error::from_read(e));
            },
        };
        if delta == 0 {
            return Ok(WireType::Slice { common, elem });
        }
        if delta > 2 - next_base {
            return Err(Error::Parse(ParseFault::UnknownField));
        }
        let idx = next_base + delta - 1;
        if idx == 0 {
            common = match parse_common_type(msg) {
                Ok(c) => c,
                Err(e) => {
                    return Err(e);
                },
            };
        } else {
            elem = match msg.read_int() {
                Ok(v) => v,
                Err(e) => {
                    return Err(Error::from_read(e));
                },
            };
        }
        next_base = idx + 1;
    }
}

/// Parse the structType struct { CommonType, Field }.
fn parse_struct_type(msg: &mut Message<Cursor>) -> (r: Result<WireType, Error>)
    requires
        old(msg).buf.wf(),
    ensures
        final(msg).buf.wf(),
        final(msg).buf.data == old(msg).buf.data,
        final(msg).buf.pos >= old(msg).buf.pos,
        r is Ok ==> final(msg).buf.pos > old(msg).buf.pos,
        r matches Ok(w) ==> w is Struct,
{
    let mut common = CommonType { name: Vec::new(), id: 0 };
    let mut fields: Vec<FieldType> = Vec::new();
    let mut next_base: u64 = 0;
    loop
        invariant
            msg.buf.wf(),
            msg.buf.data == old(msg).buf.data,
            msg.buf.pos >= old(msg).buf.pos,
            next_base <= 2,
        decreases msg.buf.remaining(),
    {
        let delta = match msg.read_uint() {
            Ok(v) => v,
            Err(e) => {
                return Err(Error::from_read(e));
            },
        };
        if delta == 0 {
            return Ok(WireType::Struct { common, fields });
        }
        if delta > 2 - next_base {
            return Err(Error::Parse(ParseFault::UnknownField));
        }
        let idx = next_base + delta - 1;
        if idx == 0 {
            common = match parse_common_type(msg) {
                Ok(c) => c,
                Err(e) => {
                    return Err(e);
                },
            };
        } else {
            fields = match parse_field_list(msg) {
                Ok(fs) => fs,
                Err(e) => {
                    return Err(e);
                },
            };
        }
        next_base = idx + 1;
    }
}

/// Parse the mapType struct { CommonType, Key, Elem }.
fn parse_map_type(msg: &mut Message<Cursor>) -> (r: Result<WireType, Error>)
    requires
        old(msg).buf.wf(),
    ensures
        final(msg).buf.wf(),
        final(msg).buf.data == old(msg).buf.data,
        final(msg).buf.pos >= old(msg).buf.pos,
        r is Ok ==> final(msg).buf.pos > old(msg).buf.pos,
        r matches Ok(w) ==> w is Mapping,
{
    let mut common = CommonType { name: Vec::new(), id: 0 };
    let mut key: i64 = 0;
    let mut elem: i64 = 0;
    let mut next_base: u64 = 0;
    loop
        invariant
            msg.buf.wf(),
            msg.buf.data == old(msg).buf.data,
            msg.buf.pos >= old(msg).buf.pos,
            next_base <= 3,
        decreases msg.buf.remaining(),
    {
        let delta = match msg.read_uint() {
            Ok(v) => v,
            Err(e) => {
                return Err(Error::from_read(e));
            },
        };
        if delta == 0 {
            return Ok(WireType::Mapping { common, key, elem });
        }
        if delta > 3 - next_base {
            return Err(Error::Parse(ParseFault::UnknownField));
        }
        let idx = next_base + delta - 1;
        if idx == 0 {
            common = match parse_common_type(msg) {
                Ok(c) => c,
                Err(e) => {
                    return Err(e);
                },
            };
        } else if idx == 1 {
            key = match msg.read_int() {
                Ok(v) => v,
                Err(e) => {
                    return Err(Error::from_read(e));
                },
            };
        } else {
            elem = match msg.read_int() {
                Ok(v) => v,
                Err(e) => {
                    return Err(Error::from_read(e));
                },
            };
        }
        next_base = idx + 1;
    }
}

// ---------------------------------------------------------------------------
// The write side of the bootstrap: the exact bytes of a type-definition
// payload. Every field is written explicitly, in declared order.
// ---------------------------------------------------------------------------
/// A length-prefixed byte string on the wire.
pub open spec fn enc_bytes(b: Seq<u8>) -> Seq<u8> {
    uvarint(b.len() as u64) + b
}

/// The struct encoding of a CommonType: both fields, then the end mark.
pub open spec fn enc_common(c: CommonType) -> Seq<u8> {
    uvarint(1) + enc_bytes(c.name@) + uvarint(1) + ivarint(c.id) + uvarint(0)
}

/// The struct encoding of one fieldType.
pub open spec fn enc_field_type(f: FieldType) -> Seq<u8> {
    uvarint(1) + enc_bytes(f.name@) + uvarint(1) + ivarint(f.id) + uvarint(0)
}

/// The field list: a count, then each fieldType in order.
pub open spec fn enc_field_list(fs: Seq<FieldType>) -> Seq<u8>
    decreases fs.len(),
{
    if fs.len() == 0 {
        Seq::empty()
    } else {
        enc_field_list(fs.drop_last()) + enc_field_type(fs.last())
    }
}

/// The payload of a type-definition section for `w`: the wire-type
/// struct with exactly one arm set, closed by the end mark. (A builtin
/// is never defined on the wire; its image here is empty.)
pub open spec fn wire_def_payload(w: WireType) -> Seq<u8> {
    match w {
        WireType::Builtin(_) => Seq::empty(),
        WireType::Array { common, elem, len } => uvarint(1) + (uvarint(1) + enc_common(common)
            + uvarint(1) + ivarint(elem) + uvarint(1) + ivarint(len) + uvarint(0)) + uvarint(0),
        WireType::Slice { common, elem } => uvarint(2) + (uvarint(1) + enc_common(common) + uvarint(
            1,
        ) + ivarint(elem) + uvarint(0)) + uvarint(0),
        WireType::Struct { common, fields } => uvarint(3) + (uvarint(1) + enc_common(common)
            + uvarint(1) + uvarint(fields@.len() as u64) + enc_field_list(fields@) + uvarint(0))
            + uvarint(0),
        WireType::Mapping { common, key, elem } => uvarint(4) + (uvarint(1) + enc_common(common)
            + uvarint(1) + ivarint(key) + uvarint(1) + ivarint(elem) + uvarint(0)) + uvarint(0),
    }
}

/// Append a length-prefixed byte string.
fn append_bytes(out: &mut Vec<u8>, b: &Vec<u8>)
    ensures
        final(out)@ == old(out)@ + enc_bytes(b@),
{
    write_uvarint(out, b.len() as u64);
    out.extend_from_slice(b.as_slice());
    proof {
        assert(final(out)@ =~= old(out)@ + enc_bytes(b@));
    }
}

/// Append the struct encoding of a CommonType.
fn write_common(out: &mut Vec<u8>, c: &CommonType)
    ensures
        final(out)@ == old(out)@ + enc_common(*c),
{
    write_uvarint(out, 1);
    append_bytes(out, &c.name);
    write_uvarint(out, 1);
    write_ivarint(out, c.id);
    write_uvarint(out, 0);
    proof {
        assert(final(out)@ =~= old(out)@ + enc_common(*c));
    }
}

/// Append a whole type-definition payload for `w`. Builtins are never
/// defined on the wire, so they are refused.
pub fn write_wire_type(out: &mut Vec<u8>, w: &WireType) -> (r: Result<(), Error>)
    ensures
        match r {
            Ok(()) => !(w is Builtin) && final(out)@ == old(out)@ + wire_def_payload(*w),
            Err(e) => w is Builtin && e == Error::SchemaMismatch && *final(out) == *old(out),
        },
{
    match w {
        WireType::Builtin(_) => Err(Error::SchemaMismatch),
        WireType::Array { common, elem, len } => {
            write_uvarint(out, 1);
            write_uvarint(out, 1);
            write_common(out, common);
            write_uvarint(out, 1);
            write_ivarint(out, *elem);
            write_uvarint(out, 1);
            write_ivarint(out, *len);
            write_uvarint(out, 0);
            write_uvarint(out, 0);
            proof {
                assert(final(out)@ =~= old(out)@ + wire_def_payload(*w));
            }
            Ok(())
        },
        WireType::Slice { common, elem } => {
            write_uvarint(out, 2);
            write_uvarint(out, 1);
            write_common(out, common);
            write_uvarint(out, 1);
            write_ivarint(out, *elem);
            write_uvarint(out, 0);
            write_uvarint(out, 0);
            proof {
                assert(final(out)@ =~= old(out)@ + wire_def_payload(*w));
            }
            Ok(())
        },
        WireType::Struct { common, fields } => {
            write_uvarint(out, 3);
            write_uvarint(out, 1);
            write_common(out, common);
            write_uvarint(out, 1);
            write_uvarint(out, fields.len() as u64);
            let ghost base = out@;
            let n = fields.len();
            let mut i: usize = 0;
            while i < n
                invariant
                    i <= n == fields@.len(),
                    out@ == base + enc_field_list(fields@.subrange(0, i as int)),
                decreases n - i,
            {
                let f = &fields[i];
                write_uvarint(out, 1);
                append_bytes(out, &f.name);
                write_uvarint(out, 1);
                write_ivarint(out, f.id);
                write_uvarint(out, 0);
                proof {
                    let pre = fields@.subrange(0, i as int);
                    let cur = fields@.subrange(0, i + 1 as int);
                    assert(cur.drop_last() =~= pre);
                    assert(cur.last() == fields@[i as int]);
                    assert(out@ =~= base + enc_field_list(cur));
                }
                i = i + 1;
            }
            proof {
                assert(fields@.subrange(0, fields@.len() as int) =~= fields@);
            }
            write_uvarint(out, 0);
            write_uvarint(out, 0);
            proof {
                assert(final(out)@ =~= old(out)@ + wire_def_payload(*w));
            }
            Ok(())
        },
        WireType::Mapping { common, key, elem } => {
            write_uvarint(out, 4);
            write_uvarint(out, 1);
            write_common(out, common);
            write_uvarint(out, 1);
            write_ivarint(out, *key);
            write_uvarint(out, 1);
            write_ivarint(out, *elem);
            write_uvarint(out, 0);
            write_uvarint(out, 0);
            proof {
                assert(final(out)@ =~= old(out)@ + wire_def_payload(*w));
            }
            Ok(())
        },
    }
}

} // verus!
