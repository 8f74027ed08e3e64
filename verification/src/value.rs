use vstd::prelude::*;

use crate::error::{Error, ParseFault};
use crate::message::{Cursor, Message};
use crate::types::{
    Types, WireType, BOOL_ID, BYTES_ID, COMPLEX_ID, FLOAT_ID, INT_ID, STRING_ID, UINT_ID,
};
use crate::varint::{ivarint_at, swap64, uvarint_at, uvarint_bad};

verus! {

/// A decoded gob value, owned: what a value section's payload says
/// once read against its descriptor.
#[derive(Debug, PartialEq, Eq)]
pub enum Value {
    Bool(bool),
    Int(i64),
    Uint(u64),
    /// A float, carried as its IEEE-754 bit pattern.
    Float(u64),
    Bytes(Vec<u8>),
    /// A string, as its wire bytes.
    Str(Vec<u8>),
    /// A complex number: real and imaginary IEEE-754 bit patterns.
    Complex(u64, u64),
    /// A slice or array payload: the elements in order.
    List(Vec<Value>),
    /// A map payload: the key/value pairs in order of arrival.
    Pairs(Vec<(Value, Value)>),
    /// A struct payload: the fields present, as (field index, value).
    Fields(Vec<(usize, Value)>),
}

/// Whether `type_id` resolves to a struct descriptor: the one shape
/// whose payload carries no singleton prefix.
pub open spec fn resolves_to_struct(defs: Types, type_id: i64) -> bool {
    defs.lookup_spec(type_id) matches Some(w) && w is Struct
}

/// The elements of `es`, all of the plain scalar type `elem`, spelled
/// one after the other from `pos` to `end`: some chain of positions
/// threads them.
pub open spec fn scalar_list_at(elem: i64, s: Seq<u8>, pos: int, end: int, es: Seq<Value>) -> bool {
    exists|q: Seq<int>|
        q.len() == es.len() + 1 && q[0] == pos && q[q.len() - 1] == end && (forall|j: int|
            0 <= j < es.len() ==> (#[trigger] scalar_value_at(elem, s, q[j]) matches Some(pr)
                && pr.0 == es[j] && pr.1 == q[j + 1]))
}

/// What a decoded value section of a slice type must hold, given the
/// framing already read: `tid` the section's type id, `body_pos` the
/// start of its body, `end_pos` where the cursor stopped, `ov` the
/// decoded value if one came back. For a slice descriptor the count is
/// the body's count varint, and for plain scalar elements the element
/// values are exactly those the body spells.
pub open spec fn slice_section_outcome(
    defs: Types,
    tid: i64,
    s: Seq<u8>,
    body_pos: int,
    ov: Option<Value>,
) -> bool {
    let z = s.len() as int;
    if tid < 0 || resolves_to_struct(defs, tid) {
        true
    } else if !(defs.lookup_spec(tid) matches Some(wt) && wt is Slice) {
        true
    } else if !(ov matches Some(v) && v is List) {
        true
    } else {
        let elem = defs.lookup_spec(tid)->Some_0->Slice_elem;
        let es = ov->Some_0->List_0;
        match uvarint_at(s, body_pos, z) {
            None => true,
            Some((d, p3)) => {
                if d != 0 {
                    true
                } else {
                    match uvarint_at(s, p3, z) {
                        None => false,
                        Some((cnt, p4)) => cnt == es@.len() && (is_plain_scalar(elem)
                            ==> exists|e2: int| scalar_list_at(elem, s, p4, e2, es@)),
                    }
                }
            },
        }
    }
}

/// Decode one value body at the cursor: a struct payload when the
/// descriptor says struct, otherwise the singleton `0` prefix followed
/// by one field value. A singleton whose prefix is not `0` is exactly
/// the `NotSingletonNorStruct` fault.
pub fn decode_value(defs: &Types, type_id: i64, msg: &mut Message<Cursor>) -> (r: Result<
    Value,
    Error,
>)
    requires
        old(msg).buf.wf(),
    ensures
        final(msg).buf.wf(),
        final(msg).buf.data == old(msg).buf.data,
        final(msg).buf.pos >= old(msg).buf.pos,
        r is Ok ==> final(msg).buf.pos > old(msg).buf.pos,
        !resolves_to_struct(*defs, type_id) && (uvarint_at(
            old(msg).buf.data@,
            old(msg).buf.pos as int,
            old(msg).buf.data@.len() as int,
        ) matches Some((v, _)) && v != 0) ==> r == Err::<Value, Error>(
            Error::Parse(ParseFault::NotSingletonNorStruct),
        ),
        resolves_to_struct(*defs, type_id) && r is Ok ==> r->Ok_0 is Fields,
        resolves_to_struct(*defs, type_id) ==> (uvarint_at(
            old(msg).buf.data@,
            old(msg).buf.pos as int,
            old(msg).buf.data@.len() as int,
        ) matches Some((d, p)) ==> (d == 0 ==> (r matches Ok(v) && v matches Value::Fields(fs)
            && fs@.len() == 0 && final(msg).buf.pos == p))),
        !resolves_to_struct(*defs, type_id) && type_id == UINT_ID ==> ({
            let s = old(msg).buf.data@;
            let z = s.len() as int;
            let pre = uvarint_at(s, old(msg).buf.pos as int, z);
            pre matches Some((d, p1)) ==> (d == 0 ==> (match r {
                Ok(v) => v matches Value::Uint(u) && uvarint_at(s, p1, z) == Some(
                    (u, final(msg).buf.pos as int),
                ),
                Err(e) => (uvarint_at(s, p1, z) is None && !uvarint_bad(s, p1, z) && e
                    == Error::UnexpectedEof) || (uvarint_bad(s, p1, z) && e == Error::Parse(
                    ParseFault::MalformedVarint,
                )),
            }))
        }),
        !resolves_to_struct(*defs, type_id) && type_id == INT_ID ==> ({
            let s = old(msg).buf.data@;
            let z = s.len() as int;
            let pre = uvarint_at(s, old(msg).buf.pos as int, z);
            pre matches Some((d, p1)) ==> (d == 0 ==> (match r {
                Ok(v) => v matches Value::Int(n) && ivarint_at(s, p1, z) == Some(
                    (n, final(msg).buf.pos as int),
                ),
                Err(e) => (ivarint_at(s, p1, z) is None && !uvarint_bad(s, p1, z) && e
                    == Error::UnexpectedEof) || (uvarint_bad(s, p1, z) && e == Error::Parse(
                    ParseFault::MalformedVarint,
                )),
            }))
        }),
        !resolves_to_struct(*defs, type_id) && type_id == BOOL_ID ==> ({
            let s = old(msg).buf.data@;
            let z = s.len() as int;
            let pre = uvarint_at(s, old(msg).buf.pos as int, z);
            pre matches Some((d, p1)) ==> (d == 0 ==> ({
                let dec = uvarint_at(s, p1, z);
                match r {
                    Ok(v) => v matches Value::Bool(b) && dec is Some && dec->Some_0.0 == (if b {
                        1u64
                    } else {
                        0u64
                    }) && dec->Some_0.1 == final(msg).buf.pos as int,
                    Err(e) => (dec is None && !uvarint_bad(s, p1, z) && e == Error::UnexpectedEof)
                        || (uvarint_bad(s, p1, z) && e == Error::Parse(ParseFault::MalformedVarint))
                        || (dec is Some && dec->Some_0.0 >= 2 && e == Error::Parse(
                        ParseFault::IntegerOverflow,
                    )),
                }
            }))
        }),
        !resolves_to_struct(*defs, type_id) && type_id == FLOAT_ID ==> ({
            let s = old(msg).buf.data@;
            let z = s.len() as int;
            let pre = uvarint_at(s, old(msg).buf.pos as int, z);
            pre matches Some((d, p1)) ==> (d == 0 ==> (match r {
                Ok(v) => v matches Value::Float(bits) && (uvarint_at(s, p1, z) matches Some(
                    (u, p2),
                ) && bits == swap64(u) && p2 == final(msg).buf.pos as int),
                Err(e) => (uvarint_at(s, p1, z) is None && !uvarint_bad(s, p1, z) && e
                    == Error::UnexpectedEof) || (uvarint_bad(s, p1, z) && e == Error::Parse(
                    ParseFault::MalformedVarint,
                )),
            }))
        }),
        !resolves_to_struct(*defs, type_id) && type_id == COMPLEX_ID ==> ({
            let s = old(msg).buf.data@;
            let z = s.len() as int;
            let pre = uvarint_at(s, old(msg).buf.pos as int, z);
            pre matches Some((d, p1)) ==> (d == 0 ==> (scalar_value_at(COMPLEX_ID, s, p1)
                matches Some(pr) ==> (r matches Ok(v) && v == pr.0 && final(msg).buf.pos as int
                == pr.1)))
        }),
        !resolves_to_struct(*defs, type_id) ==> (defs.lookup_spec(type_id) matches Some(w) ==> (w
            matches WireType::Slice { elem, .. } ==> (r matches Ok(v) ==> (v
            matches Value::List(es) ==> ({
            let s = old(msg).buf.data@;
            let z = s.len() as int;
            uvarint_at(s, old(msg).buf.pos as int, z) matches Some((d, p1)) ==> (d == 0 ==> (
            uvarint_at(s, p1, z) matches Some((cnt, p2)) && cnt == es@.len() && (is_plain_scalar(
                elem,
            ) ==> scalar_list_at(elem, s, p2, final(msg).buf.pos as int, es@))))
        }))))),
        !resolves_to_struct(*defs, type_id) && (type_id == STRING_ID || type_id == BYTES_ID) ==> ({
            let s = old(msg).buf.data@;
            let z = s.len() as int;
            let pre = uvarint_at(s, old(msg).buf.pos as int, z);
            pre matches Some((d, p1)) ==> (d == 0 ==> ({
                let dec = uvarint_at(s, p1, z);
                match r {
                    Ok(v) => ({
                        let b = (if type_id == STRING_ID {
                            v->Str_0
                        } else {
                            v->Bytes_0
                        });
                        (if type_id == STRING_ID {
                            v matches Value::Str(_)
                        } else {
                            v matches Value::Bytes(_)
                        }) && dec is Some && dec->Some_0.0 == b@.len() && final(msg).buf.pos as int
                            == dec->Some_0.1 + b@.len() && b@ == s.subrange(
                            dec->Some_0.1,
                            dec->Some_0.1 + b@.len(),
                        )
                    }),
                    Err(e) => (dec is None && !uvarint_bad(s, p1, z) && e == Error::UnexpectedEof)
                        || (uvarint_bad(s, p1, z) && e == Error::Parse(ParseFault::MalformedVarint))
                        || (dec matches Some((n, p2)) && n > z - p2 && e == Error::UnexpectedEof),
                }
            }))
        }),
{
    match defs.lookup(type_id) {
        Some(w) => {
            match w {
                WireType::Struct { fields, .. } => {
                    return (match decode_struct_fields(defs, fields, msg) {
                        Ok(fs) => Ok(Value::Fields(fs)),
                        Err(e) => Err(e),
                    });
                },
                _ => {},
            }
        },
        None => {},
    }
    let prefix = match msg.read_uint() {
        Ok(v) => v,
        Err(e) => {
            return Err(Error::from_read(e));
        },
    };
    if prefix != 0 {
        return Err(Error::Parse(ParseFault::NotSingletonNorStruct));
    }
    let (body_result, body_marks) = decode_field_value(defs, type_id, msg);
    proof {
        if !resolves_to_struct(*defs, type_id) && (defs.lookup_spec(type_id) matches Some(w) && w
            is Slice && body_result is Ok && body_result->Ok_0 is List) {
            let s = old(msg).buf.data@;
            let elem = defs.lookup_spec(type_id)->Some_0->Slice_elem;
            let es = body_result->Ok_0->List_0;
            if is_plain_scalar(elem) {
                let q = body_marks@;
                assert(q.len() == es@.len() + 1 && q[q.len() - 1] == msg.buf.pos as int && (forall|
                    j: int,
                |
                    0 <= j < es@.len() ==> (#[trigger] scalar_value_at(elem, s, q[j])
                        matches Some(pr) && pr.0 == es@[j] && pr.1 == q[j + 1])));
            }
        }
    }
    body_result
}

/// The five scalar shapes a position-indexed decode can name outright
/// (byte strings are tied through subranges instead).
pub open spec fn is_plain_scalar(tid: i64) -> bool {
    ||| tid == BOOL_ID
    ||| tid == INT_ID
    ||| tid == UINT_ID
    ||| tid == FLOAT_ID
    ||| tid == COMPLEX_ID
}

/// The scalar value of type `tid` spelled at `pos`, and its end.
pub open spec fn scalar_value_at(tid: i64, s: Seq<u8>, pos: int) -> Option<(Value, int)> {
    let z = s.len() as int;
    if tid == BOOL_ID {
        match uvarint_at(s, pos, z) {
            Some((u, p)) => {
                if u == 0 {
                    Some((Value::Bool(false), p))
                } else if u == 1 {
                    Some((Value::Bool(true), p))
                } else {
                    None
                }
            },
            None => None,
        }
    } else if tid == INT_ID {
        match ivarint_at(s, pos, z) {
            Some((n, p)) => Some((Value::Int(n), p)),
            None => None,
        }
    } else if tid == UINT_ID {
        match uvarint_at(s, pos, z) {
            Some((u, p)) => Some((Value::Uint(u), p)),
            None => None,
        }
    } else if tid == FLOAT_ID {
        match uvarint_at(s, pos, z) {
            Some((u, p)) => Some((Value::Float(swap64(u)), p)),
            None => None,
        }
    } else if tid == COMPLEX_ID {
        match uvarint_at(s, pos, z) {
            Some((u1, p1)) => match uvarint_at(s, p1, z) {
                Some((u2, p2)) => Some((Value::Complex(swap64(u1), swap64(u2)), p2)),
                None => None,
            },
            None => None,
        }
    } else {
        None
    }
}

/// Decode one field value of the type `type_id` names: the shared
/// shape of singleton bodies and struct fields. Scalars read straight
/// off the cursor; aggregates read a count and recurse through the
/// dictionary; named struct types recurse into the struct codec.
pub fn decode_field_value(defs: &Types, type_id: i64, msg: &mut Message<Cursor>) -> (res: (
    Result<Value, Error>,
    Ghost<Seq<int>>,
))
    requires
        old(msg).buf.wf(),
    ensures
        final(msg).buf.wf(),
        final(msg).buf.data == old(msg).buf.data,
        final(msg).buf.pos >= old(msg).buf.pos,
        res.0 is Ok ==> final(msg).buf.pos > old(msg).buf.pos,
        res.0 is Ok && defs.lookup_spec(type_id) is None ==> is_builtin_scalar(type_id),
        type_id == BOOL_ID ==> ({
            let s = old(msg).buf.data@;
            let a = old(msg).buf.pos as int;
            let z = s.len() as int;
            let dec = uvarint_at(s, a, z);
            match res.0 {
                Ok(v) => v matches Value::Bool(b) && dec is Some && dec->Some_0.0 == (if b {
                    1u64
                } else {
                    0u64
                }) && dec->Some_0.1 == final(msg).buf.pos as int,
                Err(e) => (dec is None && !uvarint_bad(s, a, z) && e == Error::UnexpectedEof) || (
                uvarint_bad(s, a, z) && e == Error::Parse(ParseFault::MalformedVarint)) || (dec
                    is Some && dec->Some_0.0 >= 2 && e == Error::Parse(ParseFault::IntegerOverflow)),
            }
        }),
        type_id == INT_ID ==> ({
            let s = old(msg).buf.data@;
            let a = old(msg).buf.pos as int;
            let z = s.len() as int;
            match res.0 {
                Ok(v) => v matches Value::Int(n) && ivarint_at(s, a, z) == Some(
                    (n, final(msg).buf.pos as int),
                ),
                Err(e) => (ivarint_at(s, a, z) is None && !uvarint_bad(s, a, z) && e
                    == Error::UnexpectedEof) || (uvarint_bad(s, a, z) && e == Error::Parse(
                    ParseFault::MalformedVarint,
                )),
            }
        }),
        type_id == UINT_ID ==> ({
            let s = old(msg).buf.data@;
            let a = old(msg).buf.pos as int;
            let z = s.len() as int;
            match res.0 {
                Ok(v) => v matches Value::Uint(n) && uvarint_at(s, a, z) == Some(
                    (n, final(msg).buf.pos as int),
                ),
                Err(e) => (uvarint_at(s, a, z) is None && !uvarint_bad(s, a, z) && e
                    == Error::UnexpectedEof) || (uvarint_bad(s, a, z) && e == Error::Parse(
                    ParseFault::MalformedVarint,
                )),
            }
        }),
        type_id == FLOAT_ID ==> ({
            let s = old(msg).buf.data@;
            let a = old(msg).buf.pos as int;
            let z = s.len() as int;
            match res.0 {
                Ok(v) => v matches Value::Float(bits) && (uvarint_at(s, a, z) matches Some((u, p))
                    && bits == swap64(u) && p == final(msg).buf.pos as int),
                Err(e) => (uvarint_at(s, a, z) is None && !uvarint_bad(s, a, z) && e
                    == Error::UnexpectedEof) || (uvarint_bad(s, a, z) && e == Error::Parse(
                    ParseFault::MalformedVarint,
                )),
            }
        }),
        type_id == STRING_ID || type_id == BYTES_ID ==> ({
            let s = old(msg).buf.data@;
            let a = old(msg).buf.pos as int;
            let z = s.len() as int;
            let dec = uvarint_at(s, a, z);
            match res.0 {
                Ok(v) => ({
                    let b = (if type_id == STRING_ID {
                        v->Str_0
                    } else {
                        v->Bytes_0
                    });
                    (if type_id == STRING_ID {
                        v matches Value::Str(_)
                    } else {
                        v matches Value::Bytes(_)
                    }) && dec is Some && dec->Some_0.0 == b@.len() && final(msg).buf.pos as int
                        == dec->Some_0.1 + b@.len() && b@ == s.subrange(
                        dec->Some_0.1,
                        dec->Some_0.1 + b@.len(),
                    )
                }),
                Err(e) => (dec is None && !uvarint_bad(s, a, z) && e == Error::UnexpectedEof) || (
                uvarint_bad(s, a, z) && e == Error::Parse(ParseFault::MalformedVarint)) || (dec
                    matches Some((n, p)) && n > z - p && e == Error::UnexpectedEof),
            }
        }),
        type_id == COMPLEX_ID ==> ({
            let s = old(msg).buf.data@;
            let a = old(msg).buf.pos as int;
            let z = s.len() as int;
            let d1 = uvarint_at(s, a, z);
            match res.0 {
                Ok(v) => v matches Value::Complex(re, im) && (d1 matches Some((u1, p1)) && re
                    == swap64(u1) && (uvarint_at(s, p1, z) matches Some((u2, p2)) && im == swap64(
                    u2,
                ) && p2 == final(msg).buf.pos as int)),
                Err(e) => (d1 is None && !uvarint_bad(s, a, z) && e == Error::UnexpectedEof) || (
                uvarint_bad(s, a, z) && e == Error::Parse(ParseFault::MalformedVarint)) || (d1
                    matches Some((_, p1)) && ((uvarint_at(s, p1, z) is None && !uvarint_bad(
                    s,
                    p1,
                    z,
                ) && e == Error::UnexpectedEof) || (uvarint_bad(s, p1, z) && e == Error::Parse(
                    ParseFault::MalformedVarint,
                )))),
            }
        }),
        !is_builtin_scalar(type_id) ==> (defs.lookup_spec(type_id) matches Some(w) ==> (w
            matches WireType::Slice { .. } ==> (uvarint_at(
            old(msg).buf.data@,
            old(msg).buf.pos as int,
            old(msg).buf.data@.len() as int,
        ) matches Some((n, p)) ==> ((n == 0 ==> (res.0 matches Ok(v) && v matches Value::List(es)
            && es@.len() == 0 && final(msg).buf.pos == p)) && (res.0 matches Ok(v) ==> (v
            matches Value::List(es) && es@.len() == n)))))),
        !is_builtin_scalar(type_id) ==> (defs.lookup_spec(type_id) matches Some(w) ==> (w
            matches WireType::Mapping { .. } ==> (uvarint_at(
            old(msg).buf.data@,
            old(msg).buf.pos as int,
            old(msg).buf.data@.len() as int,
        ) matches Some((n, p)) ==> ((n == 0 ==> (res.0 matches Ok(v) && v matches Value::Pairs(es)
            && es@.len() == 0 && final(msg).buf.pos == p)) && (res.0 matches Ok(v) ==> (v
            matches Value::Pairs(es) && es@.len() == n)))))),
        !is_builtin_scalar(type_id) ==> (defs.lookup_spec(type_id) matches Some(w) ==> (w
            matches WireType::Array { len, .. } ==> (res.0 matches Ok(v) ==> (v matches Value::List(es)
            && len >= 0 && es@.len() == len)))),
        !is_builtin_scalar(type_id) ==> (defs.lookup_spec(type_id) matches Some(w) ==> (w
            matches WireType::Slice { elem, .. } ==> (res.0 matches Ok(v) ==> (v
            matches Value::List(es) ==> ({
            let s = old(msg).buf.data@;
            let q = res.1@;
            &&& q.len() == es@.len() + 1
            &&& (uvarint_at(s, old(msg).buf.pos as int, s.len() as int) matches Some((cnt, p0))
                && q[0] == p0)
            &&& q[q.len() - 1] == final(msg).buf.pos as int
            &&& (is_plain_scalar(elem) ==> forall|j: int|
                0 <= j < es@.len() ==> (#[trigger] scalar_value_at(elem, s, q[j]) matches Some(pr)
                    && pr.0 == es@[j] && pr.1 == q[j + 1]))
        }))))),
        !is_builtin_scalar(type_id) ==> (defs.lookup_spec(type_id) matches Some(w) ==> (w
            matches WireType::Mapping { key, elem, .. } ==> (res.0 matches Ok(v) ==> (v
            matches Value::Pairs(es) ==> ({
            let s = old(msg).buf.data@;
            let q = res.1@;
            &&& q.len() == 2 * es@.len() + 1
            &&& (uvarint_at(s, old(msg).buf.pos as int, s.len() as int) matches Some((cnt, p0))
                && q[0] == p0)
            &&& q[q.len() - 1] == final(msg).buf.pos as int
            &&& (is_plain_scalar(key) ==> forall|j: int|
                0 <= j < es@.len() ==> (#[trigger] scalar_value_at(key, s, q[2 * j])
                    matches Some(pr) && pr.0 == es@[j].0 && pr.1 == q[2 * j + 1]))
            &&& (is_plain_scalar(elem) ==> forall|j: int|
                0 <= j < es@.len() ==> (#[trigger] scalar_value_at(elem, s, q[2 * j + 1])
                    matches Some(pr) && pr.0 == es@[j].1 && pr.1 == q[2 * j + 2]))
        }))))),
    decreases msg.buf.remaining(), 1int,
{
    let ghost no_marks = Seq::<int>::empty();
    if type_id == BOOL_ID {
        return (
            match msg.read_bool() {
                Ok(b) => Ok(Value::Bool(b)),
                Err(e) => Err(Error::from_read(e)),
            },
            Ghost(no_marks),
        );
    }
    if type_id == INT_ID {
        return (
            match msg.read_int() {
                Ok(v) => Ok(Value::Int(v)),
                Err(e) => Err(Error::from_read(e)),
            },
            Ghost(no_marks),
        );
    }
    if type_id == UINT_ID {
        return (
            match msg.read_uint() {
                Ok(v) => Ok(Value::Uint(v)),
                Err(e) => Err(Error::from_read(e)),
            },
            Ghost(no_marks),
        );
    }
    if type_id == FLOAT_ID {
        return (
            match msg.read_float() {
                Ok(bits) => Ok(Value::Float(bits)),
                Err(e) => Err(Error::from_read(e)),
            },
            Ghost(no_marks),
        );
    }
    if type_id == BYTES_ID {
        return (
            match msg.read_bytes() {
                Ok(b) => Ok(Value::Bytes(b)),
                Err(e) => Err(Error::from_read(e)),
            },
            Ghost(no_marks),
        );
    }
    if type_id == STRING_ID {
        return (
            match msg.read_bytes() {
                Ok(b) => Ok(Value::Str(b)),
                Err(e) => Err(Error::from_read(e)),
            },
            Ghost(no_marks),
        );
    }
    if type_id == COMPLEX_ID {
        let re = match msg.read_float() {
            Ok(bits) => bits,
            Err(e) => {
                return (Err(Error::from_read(e)), Ghost(no_marks));
            },
        };
        let im = match msg.read_float() {
            Ok(bits) => bits,
            Err(e) => {
                return (Err(Error::from_read(e)), Ghost(no_marks));
            },
        };
        return (Ok(Value::Complex(re, im)), Ghost(no_marks));
    }
    let w = match defs.lookup(type_id) {
        Some(w) => w,
        None => {
            return (Err(Error::Parse(ParseFault::TypeNotDefined)), Ghost(no_marks));
        },
    };
    match w {
        WireType::Builtin(_) => (Err(Error::Parse(ParseFault::UnsupportedType)), Ghost(no_marks)),
        WireType::Array { elem, len, .. } => {
            let declared = *len;
            let elem_id = *elem;
            let count = match msg.read_uint() {
                Ok(v) => v,
                Err(e) => {
                    return (Err(Error::from_read(e)), Ghost(no_marks));
                },
            };
            if declared < 0 || count != (declared as u64) {
                return (Err(Error::Parse(ParseFault::LengthMismatch)), Ghost(no_marks));
            }
            let mut out: Vec<Value> = Vec::new();
            let mut i: u64 = 0;
            while i < count
                invariant
                    msg.buf.wf(),
                    msg.buf.data == old(msg).buf.data,
                    msg.buf.pos > old(msg).buf.pos,
                    !is_builtin_scalar(type_id),
                    defs.lookup_spec(type_id) matches Some(ww) && ww is Array && ww->Array_len
                        == declared && count == declared as u64 && declared >= 0,
                    i <= count,
                    out@.len() == i,
                decreases count - i,
            {
                let (elem_result, _) = decode_field_value(defs, elem_id, msg);
                let v = match elem_result {
                    Ok(v) => v,
                    Err(e) => {
                        return (Err(e), Ghost(no_marks));
                    },
                };
                out.push(v);
                i = i + 1;
            }
            (Ok(Value::List(out)), Ghost(no_marks))
        },
        WireType::Slice { elem, .. } => {
            let elem_id = *elem;
            let count = match msg.read_uint() {
                Ok(v) => v,
                Err(e) => {
                    return (Err(Error::from_read(e)), Ghost(no_marks));
                },
            };
            let mut out: Vec<Value> = Vec::new();
            let mut i: u64 = 0;
            let ghost mut marks: Seq<int> = seq![msg.buf.pos as int];
            while i < count
                invariant
                    msg.buf.wf(),
                    msg.buf.data == old(msg).buf.data,
                    msg.buf.pos > old(msg).buf.pos,
                    !is_builtin_scalar(type_id),
                    defs.lookup_spec(type_id) matches Some(ww) && ww is Slice,
                    uvarint_at(
                        old(msg).buf.data@,
                        old(msg).buf.pos as int,
                        old(msg).buf.data@.len() as int,
                    ) matches Some((n2, p2)) && n2 == count && (i == 0 ==> msg.buf.pos == p2)
                        && marks[0] == p2,
                    i <= count,
                    out@.len() == i,
                    marks.len() == i + 1,
                    marks[marks.len() - 1] == msg.buf.pos as int,
                    is_plain_scalar(elem_id) ==> forall|j: int|
                        0 <= j < i ==> (#[trigger] scalar_value_at(
                            elem_id,
                            old(msg).buf.data@,
                            marks[j],
                        ) matches Some(pr) && pr.0 == out@[j] && pr.1 == marks[j + 1]),
                decreases count - i,
            {
                let ghost marks_pre = marks;
                let ghost out_pre = out@;
                let (elem_result, _) = decode_field_value(defs, elem_id, msg);
                let v = match elem_result {
                    Ok(v) => v,
                    Err(e) => {
                        return (Err(e), Ghost(no_marks));
                    },
                };
                out.push(v);
                proof {
                    marks = marks.push(msg.buf.pos as int);
                    if is_plain_scalar(elem_id) {
                        assert(scalar_value_at(elem_id, old(msg).buf.data@, marks_pre[i as int])
                            matches Some(pr) && pr.0 == v && pr.1 == msg.buf.pos as int);
                        assert forall|j: int| 0 <= j < i + 1 implies (#[trigger] scalar_value_at(
                            elem_id,
                            old(msg).buf.data@,
                            marks[j],
                        ) matches Some(pr) && pr.0 == out@[j] && pr.1 == marks[j + 1]) by {
                            if j < i {
                                assert(marks[j] == marks_pre[j]);
                                assert(marks[j + 1] == marks_pre[j + 1]);
                                assert(out@[j] == out_pre[j]);
                            } else {
                                assert(marks[j] == marks_pre[i as int]);
                                assert(out@[j] == v);
                            }
                        }
                    }
                }
                i = i + 1;
            }
            (Ok(Value::List(out)), Ghost(marks))
        },
        WireType::Mapping { key, elem, .. } => {
            let key_id = *key;
            let elem_id = *elem;
            let count = match msg.read_uint() {
                Ok(v) => v,
                Err(e) => {
                    return (Err(Error::from_read(e)), Ghost(no_marks));
                },
            };
            let mut out: Vec<(Value, Value)> = Vec::new();
            let mut i: u64 = 0;
            let ghost mut marks: Seq<int> = seq![msg.buf.pos as int];
            while i < count
                invariant
                    msg.buf.wf(),
                    msg.buf.data == old(msg).buf.data,
                    msg.buf.pos > old(msg).buf.pos,
                    !is_builtin_scalar(type_id),
                    defs.lookup_spec(type_id) matches Some(ww) && ww is Mapping,
                    uvarint_at(
                        old(msg).buf.data@,
                        old(msg).buf.pos as int,
                        old(msg).buf.data@.len() as int,
                    ) matches Some((n2, p2)) && n2 == count && (i == 0 ==> msg.buf.pos == p2)
                        && marks[0] == p2,
                    i <= count,
                    out@.len() == i,
                    marks.len() == 2 * i + 1,
                    marks[marks.len() - 1] == msg.buf.pos as int,
                    is_plain_scalar(key_id) ==> forall|j: int|
                        0 <= j < i ==> (#[trigger] scalar_value_at(
                            key_id,
                            old(msg).buf.data@,
                            marks[2 * j],
                        ) matches Some(pr) && pr.0 == out@[j].0 && pr.1 == marks[2 * j + 1]),
                    is_plain_scalar(elem_id) ==> forall|j: int|
                        0 <= j < i ==> (#[trigger] scalar_value_at(
                            elem_id,
                            old(msg).buf.data@,
                            marks[2 * j + 1],
                        ) matches Some(pr) && pr.0 == out@[j].1 && pr.1 == marks[2 * j + 2]),
                decreases count - i,
            {
                let ghost marks_pre = marks;
                let ghost out_pre = out@;
                let (key_result, _) = decode_field_value(defs, key_id, msg);
                let k = match key_result {
                    Ok(v) => v,
                    Err(e) => {
                        return (Err(e), Ghost(no_marks));
                    },
                };
                proof {
                    marks = marks.push(msg.buf.pos as int);
                }
                let (val_result, _) = decode_field_value(defs, elem_id, msg);
                let v = match val_result {
                    Ok(v) => v,
                    Err(e) => {
                        return (Err(e), Ghost(no_marks));
                    },
                };
                out.push((k, v));
                proof {
                    marks = marks.push(msg.buf.pos as int);
                    if is_plain_scalar(key_id) {
                        assert(scalar_value_at(key_id, old(msg).buf.data@, marks_pre[2 * i])
                            matches Some(pr) && pr.0 == k && pr.1 == marks[2 * i + 1]);
                        assert forall|j: int| 0 <= j < i + 1 implies (#[trigger] scalar_value_at(
                            key_id,
                            old(msg).buf.data@,
                            marks[2 * j],
                        ) matches Some(pr) && pr.0 == out@[j].0 && pr.1 == marks[2 * j + 1]) by {
                            if j < i {
                                assert(marks[2 * j] == marks_pre[2 * j]);
                                assert(marks[2 * j + 1] == marks_pre[2 * j + 1]);
                                assert(out@[j] == out_pre[j]);
                            } else {
                                assert(marks[2 * j] == marks_pre[2 * i]);
                                assert(out@[j] == (k, v));
                            }
                        }
                    }
                    if is_plain_scalar(elem_id) {
                        assert(scalar_value_at(elem_id, old(msg).buf.data@, marks[2 * i + 1])
                            matches Some(pr) && pr.0 == v && pr.1 == msg.buf.pos as int);
                        assert forall|j: int| 0 <= j < i + 1 implies (#[trigger] scalar_value_at(
                            elem_id,
                            old(msg).buf.data@,
                            marks[2 * j + 1],
                        ) matches Some(pr) && pr.0 == out@[j].1 && pr.1 == marks[2 * j + 2]) by {
                            if j < i {
                                assert(marks[2 * j + 1] == marks_pre[2 * j + 1]);
                                assert(marks[2 * j + 2] == marks_pre[2 * j + 2]);
                                assert(out@[j] == out_pre[j]);
                            } else {
                                assert(out@[j] == (k, v));
                            }
                        }
                    }
                }
                i = i + 1;
            }
            (Ok(Value::Pairs(out)), Ghost(marks))
        },
        WireType::Struct { fields, .. } => {
            match decode_struct_fields(defs, fields, msg) {
                Ok(fs) => (Ok(Value::Fields(fs)), Ghost(no_marks)),
                Err(e) => (Err(e), Ghost(no_marks)),
            }
        },
    }
}

/// True of the ids the field-value decoder reads without a descriptor.
pub open spec fn is_builtin_scalar(type_id: i64) -> bool {
    ||| type_id == BOOL_ID
    ||| type_id == INT_ID
    ||| type_id == UINT_ID
    ||| type_id == FLOAT_ID
    ||| type_id == BYTES_ID
    ||| type_id == STRING_ID
    ||| type_id == COMPLEX_ID
}

/// The struct codec, read side: field deltas walk the declared fields
/// in ascending order, a `0` delta ends the struct, and each present
/// field carries one field value of its declared type.
pub fn decode_struct_fields(
    defs: &Types,
    fields: &Vec<crate::types::FieldType>,
    msg: &mut Message<Cursor>,
) -> (r: Result<Vec<(usize, Value)>, Error>)
    requires
        old(msg).buf.wf(),
    ensures
        final(msg).buf.wf(),
        final(msg).buf.data == old(msg).buf.data,
        final(msg).buf.pos >= old(msg).buf.pos,
        r is Ok ==> final(msg).buf.pos > old(msg).buf.pos,
        r is Ok ==> forall|j: int|
            0 <= j < r->Ok_0@.len() ==> (#[trigger] r->Ok_0@[j]).0 < fields@.len(),
        r is Ok ==> forall|j: int, k: int|
            0 <= j < k < r->Ok_0@.len() ==> (#[trigger] r->Ok_0@[j]).0 < (#[trigger] r->Ok_0@[k]).0,
        uvarint_at(
            old(msg).buf.data@,
            old(msg).buf.pos as int,
            old(msg).buf.data@.len() as int,
        ) matches Some((d, p)) ==> (d == 0 ==> (r matches Ok(fs) && fs@.len() == 0
            && final(msg).buf.pos == p)),
        uvarint_at(
            old(msg).buf.data@,
            old(msg).buf.pos as int,
            old(msg).buf.data@.len() as int,
        ) is None && !uvarint_bad(
            old(msg).buf.data@,
            old(msg).buf.pos as int,
            old(msg).buf.data@.len() as int,
        ) ==> r == Err::<Vec<(usize, Value)>, Error>(Error::UnexpectedEof),
        uvarint_bad(
            old(msg).buf.data@,
            old(msg).buf.pos as int,
            old(msg).buf.data@.len() as int,
        ) ==> r == Err::<Vec<(usize, Value)>, Error>(Error::Parse(ParseFault::MalformedVarint)),
    decreases msg.buf.remaining(), 0int,
{
    let mut out: Vec<(usize, Value)> = Vec::new();
    // one past the previous present field; the first delta counts from here
    let mut next_base: usize = 0;
    loop
        invariant
            msg.buf.wf(),
            msg.buf.data == old(msg).buf.data,
            msg.buf.pos >= old(msg).buf.pos,
            next_base <= fields@.len(),
            msg.buf.pos == old(msg).buf.pos ==> out@.len() == 0,
            msg.buf.pos > old(msg).buf.pos ==> !(uvarint_at(
                old(msg).buf.data@,
                old(msg).buf.pos as int,
                old(msg).buf.data@.len() as int,
            ) matches Some((d, _)) && d == 0),
            msg.buf.pos > old(msg).buf.pos ==> uvarint_at(
                old(msg).buf.data@,
                old(msg).buf.pos as int,
                old(msg).buf.data@.len() as int,
            ) is Some,
            forall|j: int| 0 <= j < out@.len() ==> (#[trigger] out@[j]).0 < fields@.len(),
            forall|j: int| 0 <= j < out@.len() ==> (#[trigger] out@[j]).0 < next_base,
            forall|j: int, k: int|
                0 <= j < k < out@.len() ==> (#[trigger] out@[j]).0 < (#[trigger] out@[k]).0,
        decreases msg.buf.remaining(),
    {
        let delta = match msg.read_uint() {
            Ok(v) => v,
            Err(e) => {
                return Err(Error::from_read(e));
            },
        };
        if delta == 0 {
            return Ok(out);
        }
        if delta > (fields.len() - next_base) as u64 {
            return Err(Error::Parse(ParseFault::UnknownField));
        }
        let idx = next_base + (delta as usize) - 1;
        let field_id = fields[idx].id;
        let (field_result, _) = decode_field_value(defs, field_id, msg);
        let v = match field_result {
            Ok(v) => v,
            Err(e) => {
                return Err(e);
            },
        };
        out.push((idx, v));
        next_base = idx + 1;
    }
}

} // verus!
