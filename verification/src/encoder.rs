use vstd::prelude::*;

use crate::error::Error;
use crate::stream::{section_bytes, write_section};
use crate::types::{
    Types, WireType, BOOL_ID, BYTES_ID, COMPLEX_ID, FLOAT_ID, INT_ID, STRING_ID, UINT_ID,
};
use crate::varint::{ivarint, swap64, swap_bytes64, uvarint, write_ivarint, write_uvarint};
use crate::wire::enc_bytes;

verus! {

use crate::value::Value;

// ---------------------------------------------------------------------------
// The exact bytes of a field value, as a function of the dictionary,
// the type id and the value; `None` where the value does not fit the
// descriptor. The executable writers below emit exactly these bytes.
// ---------------------------------------------------------------------------
/// The wire bytes of `v` encoded as a field value of type `tid`.
pub open spec fn enc_field_value(defs: Types, tid: i64, v: Value) -> Option<Seq<u8>>
    decreases v, 0int,
{
    if tid == BOOL_ID {
        match v {
            Value::Bool(b) => Some(
                uvarint(
                    if b {
                        1u64
                    } else {
                        0u64
                    },
                ),
            ),
            _ => None,
        }
    } else if tid == INT_ID {
        match v {
            Value::Int(n) => Some(ivarint(n)),
            _ => None,
        }
    } else if tid == UINT_ID {
        match v {
            Value::Uint(n) => Some(uvarint(n)),
            _ => None,
        }
    } else if tid == FLOAT_ID {
        match v {
            Value::Float(bits) => Some(uvarint(swap64(bits))),
            _ => None,
        }
    } else if tid == BYTES_ID {
        match v {
            Value::Bytes(b) => Some(enc_bytes(b@)),
            _ => None,
        }
    } else if tid == STRING_ID {
        match v {
            Value::Str(b) => Some(enc_bytes(b@)),
            _ => None,
        }
    } else if tid == COMPLEX_ID {
        match v {
            Value::Complex(re, im) => Some(uvarint(swap64(re)) + uvarint(swap64(im))),
            _ => None,
        }
    } else {
        match defs.lookup_spec(tid) {
            None => None,
            Some(w) => match w {
                WireType::Builtin(_) => None,
                WireType::Array { elem, len, .. } => match v {
                    Value::List(vs) => {
                        if 0 <= len && vs@.len() == len {
                            match enc_elems(defs, elem, vs@, 0) {
                                None => None,
                                Some(body) => Some(uvarint(vs@.len() as u64) + body),
                            }
                        } else {
                            None
                        }
                    },
                    _ => None,
                },
                WireType::Slice { elem, .. } => match v {
                    Value::List(vs) => match enc_elems(defs, elem, vs@, 0) {
                        None => None,
                        Some(body) => Some(uvarint(vs@.len() as u64) + body),
                    },
                    _ => None,
                },
                WireType::Mapping { key, elem, .. } => match v {
                    Value::Pairs(ps) => match enc_pairs(defs, key, elem, ps@, 0) {
                        None => None,
                        Some(body) => Some(uvarint(ps@.len() as u64) + body),
                    },
                    _ => None,
                },
                WireType::Struct { fields, .. } => match v {
                    Value::Fields(fs) => enc_struct_body(defs, fields@, fs@, 0, 0),
                    _ => None,
                },
            },
        }
    }
}

/// The elements of a list payload from position `i` on, concatenated.
pub open spec fn enc_elems(defs: Types, elem: i64, vs: Seq<Value>, i: int) -> Option<Seq<u8>>
    decreases vs, vs.len() - i,
{
    if i < 0 || i >= vs.len() {
        Some(Seq::empty())
    } else {
        match enc_field_value(defs, elem, vs[i]) {
            None => None,
            Some(b) => match enc_elems(defs, elem, vs, i + 1) {
                None => None,
                Some(rest) => Some(b + rest),
            },
        }
    }
}

/// The key/value pairs of a map payload from position `i` on.
pub open spec fn enc_pairs(
    defs: Types,
    key: i64,
    elem: i64,
    ps: Seq<(Value, Value)>,
    i: int,
) -> Option<Seq<u8>>
    decreases ps, ps.len() - i,
{
    if i < 0 || i >= ps.len() {
        Some(Seq::empty())
    } else {
        match enc_field_value(defs, key, ps[i].0) {
            None => None,
            Some(kb) => match enc_field_value(defs, elem, ps[i].1) {
                None => None,
                Some(vb) => match enc_pairs(defs, key, elem, ps, i + 1) {
                    None => None,
                    Some(rest) => Some(kb + vb + rest),
                },
            },
        }
    }
}

/// A struct body from entry `i` on: each present field as its delta
/// from the previous (`base` is one past the previous index), then its
/// value, the whole closed by the `0` end mark. `None` when an index
/// breaks ascending order or walks past the descriptor.
pub open spec fn enc_struct_body(
    defs: Types,
    fields: Seq<crate::types::FieldType>,
    fs: Seq<(usize, Value)>,
    i: int,
    base: int,
) -> Option<Seq<u8>>
    decreases fs, fs.len() - i,
{
    if i < 0 || i >= fs.len() {
        Some(uvarint(0))
    } else {
        let idx = fs[i].0 as int;
        if idx < base || idx >= fields.len() {
            None
        } else {
            match enc_field_value(defs, fields[idx].id, fs[i].1) {
                None => None,
                Some(b) => match enc_struct_body(defs, fields, fs, i + 1, idx + 1) {
                    None => None,
                    Some(rest) => Some(uvarint((idx + 1 - base) as u64) + b + rest),
                },
            }
        }
    }
}

/// The whole payload of a value section: a struct body for a struct
/// descriptor, the singleton `0` prefix and one field value otherwise.
pub open spec fn enc_value_payload(defs: Types, tid: i64, v: Value) -> Option<Seq<u8>> {
    if crate::value::resolves_to_struct(defs, tid) {
        enc_field_value(defs, tid, v)
    } else {
        match enc_field_value(defs, tid, v) {
            None => None,
            Some(b) => Some(uvarint(0) + b),
        }
    }
}

/// Append the field-value encoding of `v`: exactly the bytes
/// `enc_field_value` names, or `SchemaMismatch` exactly when the value
/// does not fit the descriptor (the bytes written so far then stay,
/// and the stream is to be abandoned).
pub fn encode_field_value(defs: &Types, tid: i64, v: &Value, out: &mut Vec<u8>) -> (r: Result<
    (),
    Error,
>)
    ensures
        old(out)@.is_prefix_of(final(out)@),
        match r {
            Ok(()) => enc_field_value(*defs, tid, *v) matches Some(b) && final(out)@ == old(out)@
                + b,
            Err(e) => enc_field_value(*defs, tid, *v) is None && e == Error::SchemaMismatch,
        },
    decreases v, 1int,
{
    if tid == BOOL_ID {
        match v {
            Value::Bool(b) => {
                write_uvarint(
                    out,
                    if *b {
                        1
                    } else {
                        0
                    },
                );
                Ok(())
            },
            _ => Err(Error::SchemaMismatch),
        }
    } else if tid == INT_ID {
        match v {
            Value::Int(n) => {
                write_ivarint(out, *n);
                Ok(())
            },
            _ => Err(Error::SchemaMismatch),
        }
    } else if tid == UINT_ID {
        match v {
            Value::Uint(n) => {
                write_uvarint(out, *n);
                Ok(())
            },
            _ => Err(Error::SchemaMismatch),
        }
    } else if tid == FLOAT_ID {
        match v {
            Value::Float(bits) => {
                let swapped = swap_bytes64(*bits);
                write_uvarint(out, swapped);
                Ok(())
            },
            _ => Err(Error::SchemaMismatch),
        }
    } else if tid == BYTES_ID {
        match v {
            Value::Bytes(b) => {
                write_uvarint(out, b.len() as u64);
                out.extend_from_slice(b.as_slice());
                proof {
                    assert(final(out)@ =~= old(out)@ + enc_bytes(b@));
                }
                Ok(())
            },
            _ => Err(Error::SchemaMismatch),
        }
    } else if tid == STRING_ID {
        match v {
            Value::Str(b) => {
                write_uvarint(out, b.len() as u64);
                out.extend_from_slice(b.as_slice());
                proof {
                    assert(final(out)@ =~= old(out)@ + enc_bytes(b@));
                }
                Ok(())
            },
            _ => Err(Error::SchemaMismatch),
        }
    } else if tid == COMPLEX_ID {
        match v {
            Value::Complex(re, im) => {
                let sre = swap_bytes64(*re);
                write_uvarint(out, sre);
                let sim = swap_bytes64(*im);
                write_uvarint(out, sim);
                proof {
                    assert(final(out)@ =~= old(out)@ + (uvarint(swap64(*re)) + uvarint(
                        swap64(*im),
                    )));
                }
                Ok(())
            },
            _ => Err(Error::SchemaMismatch),
        }
    } else {
        let w = match defs.lookup(tid) {
            Some(w) => w,
            None => {
                return Err(Error::SchemaMismatch);
            },
        };
        match w {
            WireType::Builtin(_) => Err(Error::SchemaMismatch),
            WireType::Array { elem, len, .. } => {
                let elem_id = *elem;
                let declared = *len;
                match v {
                    Value::List(vs) => {
                        if declared < 0 || (vs.len() as u64) != (declared as u64) {
                            return Err(Error::SchemaMismatch);
                        }
                        encode_elements(defs, elem_id, vs, out)
                    },
                    _ => Err(Error::SchemaMismatch),
                }
            },
            WireType::Slice { elem, .. } => {
                let elem_id = *elem;
                match v {
                    Value::List(vs) => encode_elements(defs, elem_id, vs, out),
                    _ => Err(Error::SchemaMismatch),
                }
            },
            WireType::Mapping { key, elem, .. } => {
                let key_id = *key;
                let elem_id = *elem;
                match v {
                    Value::Pairs(ps) => encode_entries(defs, key_id, elem_id, ps, out),
                    _ => Err(Error::SchemaMismatch),
                }
            },
            WireType::Struct { fields, .. } => {
                match v {
                    Value::Fields(fs) => encode_struct_body(defs, fields, fs, out),
                    _ => Err(Error::SchemaMismatch),
                }
            },
        }
    }
}

/// Append a list payload: the count, then every element.
fn encode_elements(defs: &Types, elem_id: i64, vs: &Vec<Value>, out: &mut Vec<u8>) -> (r: Result<
    (),
    Error,
>)
    ensures
        old(out)@.is_prefix_of(final(out)@),
        match r {
            Ok(()) => enc_elems(*defs, elem_id, vs@, 0) matches Some(body) && final(out)@ == old(
                out,
            )@ + uvarint(vs@.len() as u64) + body,
            Err(e) => enc_elems(*defs, elem_id, vs@, 0) is None && e == Error::SchemaMismatch,
        },
    decreases vs, 0int,
{
    write_uvarint(out, vs.len() as u64);
    let ghost base = out@;
    let n = vs.len();
    let mut i: usize = 0;
    let ghost mut acc: Seq<u8> = Seq::empty();
    proof {
        assert(base + acc =~= base);
    }
    while i < n
        invariant
            i <= n == vs@.len(),
            out@ == base + acc,
            base == old(out)@ + uvarint(vs@.len() as u64),
            (match enc_elems(*defs, elem_id, vs@, i as int) {
                Some(rest) => enc_elems(*defs, elem_id, vs@, 0) == Some(acc + rest),
                None => enc_elems(*defs, elem_id, vs@, 0) is None,
            }),
        decreases n - i,
    {
        let ghost acc0 = acc;
        match encode_field_value(defs, elem_id, &vs[i], out) {
            Ok(()) => {},
            Err(e) => {
                return Err(e);
            },
        }
        proof {
            let b = enc_field_value(*defs, elem_id, vs@[i as int])->Some_0;
            acc = acc0 + b;
            assert(out@ =~= base + acc);
            match enc_elems(*defs, elem_id, vs@, i + 1) {
                Some(rest) => {
                    assert(enc_elems(*defs, elem_id, vs@, i as int) == Some(b + rest));
                    assert(acc0 + (b + rest) =~= acc + rest);
                },
                None => {
                    assert(enc_elems(*defs, elem_id, vs@, i as int) is None);
                },
            }
        }
        i = i + 1;
    }
    proof {
        assert(enc_elems(*defs, elem_id, vs@, n as int) == Some(Seq::<u8>::empty()));
        assert(acc + Seq::<u8>::empty() =~= acc);
        assert(final(out)@ =~= old(out)@ + uvarint(vs@.len() as u64) + acc);
    }
    Ok(())
}

/// Append a map payload: the count, then every key/value pair.
fn encode_entries(
    defs: &Types,
    key_id: i64,
    elem_id: i64,
    ps: &Vec<(Value, Value)>,
    out: &mut Vec<u8>,
) -> (r: Result<(), Error>)
    ensures
        old(out)@.is_prefix_of(final(out)@),
        match r {
            Ok(()) => enc_pairs(*defs, key_id, elem_id, ps@, 0) matches Some(body) && final(out)@
                == old(out)@ + uvarint(ps@.len() as u64) + body,
            Err(e) => enc_pairs(*defs, key_id, elem_id, ps@, 0) is None && e
                == Error::SchemaMismatch,
        },
    decreases ps, 0int,
{
    write_uvarint(out, ps.len() as u64);
    let ghost base = out@;
    let n = ps.len();
    let mut i: usize = 0;
    let ghost mut acc: Seq<u8> = Seq::empty();
    proof {
        assert(base + acc =~= base);
    }
    while i < n
        invariant
            i <= n == ps@.len(),
            out@ == base + acc,
            base == old(out)@ + uvarint(ps@.len() as u64),
            (match enc_pairs(*defs, key_id, elem_id, ps@, i as int) {
                Some(rest) => enc_pairs(*defs, key_id, elem_id, ps@, 0) == Some(acc + rest),
                None => enc_pairs(*defs, key_id, elem_id, ps@, 0) is None,
            }),
        decreases n - i,
    {
        let ghost acc0 = acc;
        match encode_field_value(defs, key_id, &ps[i].0, out) {
            Ok(()) => {},
            Err(e) => {
                return Err(e);
            },
        }
        match encode_field_value(defs, elem_id, &ps[i].1, out) {
            Ok(()) => {},
            Err(e) => {
                return Err(e);
            },
        }
        proof {
            let kb = enc_field_value(*defs, key_id, ps@[i as int].0)->Some_0;
            let vb = enc_field_value(*defs, elem_id, ps@[i as int].1)->Some_0;
            acc = acc0 + kb + vb;
            assert(out@ =~= base + acc);
            match enc_pairs(*defs, key_id, elem_id, ps@, i + 1) {
                Some(rest) => {
                    assert(enc_pairs(*defs, key_id, elem_id, ps@, i as int) == Some(
                        kb + vb + rest,
                    ));
                    assert(acc0 + (kb + vb + rest) =~= acc + rest);
                },
                None => {
                    assert(enc_pairs(*defs, key_id, elem_id, ps@, i as int) is None);
                },
            }
        }
        i = i + 1;
    }
    proof {
        assert(enc_pairs(*defs, key_id, elem_id, ps@, n as int) == Some(Seq::<u8>::empty()));
        assert(acc + Seq::<u8>::empty() =~= acc);
        assert(final(out)@ =~= old(out)@ + uvarint(ps@.len() as u64) + acc);
    }
    Ok(())
}

/// Append a struct body: deltas over the present fields in ascending
/// declared order, each field's value, the `0` end mark.
fn encode_struct_body(
    defs: &Types,
    fields: &Vec<crate::types::FieldType>,
    fs: &Vec<(usize, Value)>,
    out: &mut Vec<u8>,
) -> (r: Result<(), Error>)
    ensures
        old(out)@.is_prefix_of(final(out)@),
        match r {
            Ok(()) => enc_struct_body(*defs, fields@, fs@, 0, 0) matches Some(body) && final(out)@
                == old(out)@ + body,
            Err(e) => enc_struct_body(*defs, fields@, fs@, 0, 0) is None && e
                == Error::SchemaMismatch,
        },
    decreases fs, 0int,
{
    let ghost base = out@;
    let n = fs.len();
    let mut i: usize = 0;
    let mut next_base: usize = 0;
    let ghost mut acc: Seq<u8> = Seq::empty();
    proof {
        assert(base + acc =~= base);
    }
    while i < n
        invariant
            i <= n == fs@.len(),
            out@ == base + acc,
            base == old(out)@,
            next_base <= fields@.len(),
            (match enc_struct_body(*defs, fields@, fs@, i as int, next_base as int) {
                Some(rest) => enc_struct_body(*defs, fields@, fs@, 0, 0) == Some(acc + rest),
                None => enc_struct_body(*defs, fields@, fs@, 0, 0) is None,
            }),
        decreases n - i,
    {
        let ghost acc0 = acc;
        let idx = fs[i].0;
        if idx < next_base || idx >= fields.len() {
            return Err(Error::SchemaMismatch);
        }
        let delta = (idx + 1 - next_base) as u64;
        write_uvarint(out, delta);
        let field_id = fields[idx].id;
        match encode_field_value(defs, field_id, &fs[i].1, out) {
            Ok(()) => {},
            Err(e) => {
                return Err(e);
            },
        }
        proof {
            let b = enc_field_value(*defs, fields@[idx as int].id, fs@[i as int].1)->Some_0;
            acc = acc0 + uvarint((idx + 1 - next_base) as u64) + b;
            assert(out@ =~= base + acc);
            match enc_struct_body(*defs, fields@, fs@, i + 1, idx + 1) {
                Some(rest) => {
                    assert(enc_struct_body(*defs, fields@, fs@, i as int, next_base as int)
                        == Some(uvarint((idx + 1 - next_base) as u64) + b + rest));
                    assert(acc0 + (uvarint((idx + 1 - next_base) as u64) + b + rest) =~= acc
                        + rest);
                },
                None => {
                    assert(enc_struct_body(*defs, fields@, fs@, i as int, next_base as int)
                        is None);
                },
            }
        }
        next_base = idx + 1;
        i = i + 1;
    }
    write_uvarint(out, 0);
    proof {
        assert(enc_struct_body(*defs, fields@, fs@, n as int, next_base as int) == Some(
            uvarint(0),
        ));
        assert(final(out)@ =~= old(out)@ + (acc + uvarint(0)));
    }
    Ok(())
}

/// Append a whole value payload: the struct body alone for a struct
/// descriptor, the singleton `0` prefix and one field value otherwise.
pub fn encode_value_payload(defs: &Types, tid: i64, v: &Value, out: &mut Vec<u8>) -> (r: Result<
    (),
    Error,
>)
    ensures
        old(out)@.is_prefix_of(final(out)@),
        match r {
            Ok(()) => enc_value_payload(*defs, tid, *v) matches Some(b) && final(out)@ == old(out)@
                + b,
            Err(e) => enc_value_payload(*defs, tid, *v) is None && e == Error::SchemaMismatch,
        },
{
    let is_struct = match defs.lookup(tid) {
        Some(w) => match w {
            WireType::Struct { .. } => true,
            _ => false,
        },
        None => false,
    };
    if !is_struct {
        write_uvarint(out, 0);
    }
    let ghost mid = out@;
    match encode_field_value(defs, tid, v, out) {
        Ok(()) => {
            proof {
                if !crate::value::resolves_to_struct(*defs, tid) {
                    let b = enc_field_value(*defs, tid, *v)->Some_0;
                    assert(final(out)@ =~= old(out)@ + (uvarint(0) + b));
                }
            }
            Ok(())
        },
        Err(e) => Err(e),
    }
}

/// The writer's variant convention, mirrored from the struct codec: a
/// variant is a one-field struct whose field index is the variant
/// index. The selector `index + 1` opens it, the body follows encoded
/// as the inner type, and a `0` closes it.
pub fn encode_variant(
    defs: &Types,
    variant_index: u64,
    inner_tid: i64,
    v: &Value,
    out: &mut Vec<u8>,
) -> (r: Result<(), Error>)
    requires
        variant_index < u64::MAX,
    ensures
        match r {
            Ok(()) => enc_field_value(*defs, inner_tid, *v) matches Some(b) && final(out)@ == old(
                out,
            )@ + uvarint((variant_index + 1) as u64) + b + uvarint(0),
            Err(e) => enc_field_value(*defs, inner_tid, *v) is None && e == Error::SchemaMismatch
                && (old(out)@ + uvarint((variant_index + 1) as u64)).is_prefix_of(final(out)@),
        },
{
    write_uvarint(out, variant_index + 1);
    match encode_field_value(defs, inner_tid, v, out) {
        Ok(()) => {},
        Err(e) => {
            return Err(e);
        },
    }
    write_uvarint(out, 0);
    proof {
        let b = enc_field_value(*defs, inner_tid, *v)->Some_0;
        assert(final(out)@ =~= old(out)@ + uvarint((variant_index + 1) as u64) + b + uvarint(0));
    }
    Ok(())
}

/// True of a list of ids that may stand in definition sections: each
/// is a user id filed in the schema under itself, not a builtin.
pub open spec fn are_definition_ids(schema: Types, ids: Seq<i64>) -> bool {
    forall|k: int|
        0 <= k < ids.len() ==> 64 <= #[trigger] ids[k] && (schema.lookup_spec(ids[k])
            matches Some(w) && w.id() == ids[k] && !(w is Builtin))
}

/// The wire bytes of the definition sections for `ids`, in order: for
/// each id, one section framed under the negated id around the
/// descriptor payload of its schema entry.
pub open spec fn def_sections_of(schema: Types, ids: Seq<i64>) -> Seq<u8>
    decreases ids.len(),
{
    if ids.len() == 0 {
        Seq::empty()
    } else {
        (match schema.lookup_spec(ids[0]) {
            Some(w) => section_bytes(
                ((0 - ids[0] as int)) as i64,
                crate::wire::wire_def_payload(w),
            ),
            None => Seq::empty(),
        }) + def_sections_of(schema, ids.drop_first())
    }
}

/// Definition sections concatenate as their id lists do.
pub proof fn lemma_def_sections_concat(schema: Types, a: Seq<i64>, b: Seq<i64>)
    ensures
        def_sections_of(schema, a + b) == def_sections_of(schema, a) + def_sections_of(schema, b),
    decreases a.len(),
{
    if a.len() == 0 {
        assert(a + b =~= b);
        assert(Seq::<u8>::empty() + def_sections_of(schema, b) =~= def_sections_of(schema, b));
    } else {
        assert((a + b).drop_first() =~= a.drop_first() + b);
        assert((a + b)[0] == a[0]);
        lemma_def_sections_concat(schema, a.drop_first(), b);
        assert(def_sections_of(schema, a + b) =~= def_sections_of(schema, a) + def_sections_of(
            schema,
            b,
        ));
    }
}

/// The write side of a gob stream: the caller-declared schema, the ids
/// whose definitions are already on the wire, and the bytes ready to
/// be handed to the writer.
pub struct StreamEncoder {
    pub schema: Types,
    pub emitted: Vec<i64>,
    pub output: Vec<u8>,
}

impl StreamEncoder {
    /// A fresh stream over `schema`: nothing emitted yet.
    pub fn new(schema: Types) -> (r: StreamEncoder)
        ensures
            r.schema == schema,
            r.emitted@ == Seq::<i64>::empty(),
            r.output@ == Seq::<u8>::empty(),
    {
        StreamEncoder { schema, emitted: Vec::new(), output: Vec::new() }
    }

    /// Whether the definition of `tid` is already on the wire.
    fn already_emitted(&self, tid: i64) -> (r: bool)
        ensures
            r == self.emitted@.contains(tid),
    {
        let n = self.emitted.len();
        let mut i: usize = 0;
        while i < n
            invariant
                i <= n == self.emitted@.len(),
                forall|j: int| 0 <= j < i ==> self.emitted@[j] != tid,
            decreases n - i,
        {
            if self.emitted[i] == tid {
                return true;
            }
            i = i + 1;
        }
        false
    }

    /// Emit the type-definition section for `tid` if it is a user type
    /// not yet on the wire, after the definitions of every type it
    /// refers to. Ids below 64 are the reserved range of the built-ins:
    /// they need no definition; user ids start at 64. A schema that
    /// leads outside itself, or whose entry is filed under a foreign
    /// id, is refused. On success the output grew by exactly the
    /// definition sections of the returned ids, in that order.
    pub fn emit_definition(&mut self, tid: i64) -> (res: (Result<(), Error>, Ghost<Seq<i64>>))
        requires
            old(self).emitted@.len() <= old(self).schema.entries@.len(),
        ensures
            final(self).schema == old(self).schema,
            final(self).emitted@.len() <= final(self).schema.entries@.len(),
            old(self).emitted@.len() <= final(self).emitted@.len(),
            old(self).output@.is_prefix_of(final(self).output@),
            old(self).emitted@.is_prefix_of(final(self).emitted@),
            tid < 64 ==> res.0 is Ok && *final(self) == *old(self),
            old(self).emitted@.contains(tid) ==> res.0 is Ok && *final(self) == *old(self),
            res.0 is Ok && tid >= 64 ==> final(self).emitted@.contains(tid),
            res.0 is Ok ==> are_definition_ids(old(self).schema, res.1@) && final(self).output@
                == old(self).output@ + def_sections_of(old(self).schema, res.1@),
        decreases old(self).schema.entries@.len() - old(self).emitted@.len(),
    {
        let ghost empty_ids = Seq::<i64>::empty();
        proof {
            assert(old(self).output@ + def_sections_of(old(self).schema, empty_ids) =~= old(
                self,
            ).output@);
        }
        if tid < 64 {
            return (Ok(()), Ghost(empty_ids));
        }
        if self.already_emitted(tid) {
            return (Ok(()), Ghost(empty_ids));
        }
        if self.emitted.len() >= self.schema.entries.len() {
            return (Err(Error::SchemaMismatch), Ghost(empty_ids));
        }
        let mut payload: Vec<u8> = Vec::new();
        let mut children: Vec<i64> = Vec::new();
        let ghost wt: WireType;
        match self.schema.lookup(tid) {
            None => {
                return (Err(Error::SchemaMismatch), Ghost(empty_ids));
            },
            Some(w) => {
                proof {
                    wt = *w;
                }
                if w.common().id != tid {
                    return (Err(Error::SchemaMismatch), Ghost(empty_ids));
                }
                match crate::wire::write_wire_type(&mut payload, w) {
                    Ok(()) => {},
                    Err(e) => {
                        return (Err(e), Ghost(empty_ids));
                    },
                }
                proof {
                    assert(payload@ =~= crate::wire::wire_def_payload(wt));
                }
                match w {
                    WireType::Builtin(_) => {},
                    WireType::Array { elem, .. } => {
                        children.push(*elem);
                    },
                    WireType::Slice { elem, .. } => {
                        children.push(*elem);
                    },
                    WireType::Mapping { key, elem, .. } => {
                        children.push(*key);
                        children.push(*elem);
                    },
                    WireType::Struct { fields, .. } => {
                        let m = fields.len();
                        let mut j: usize = 0;
                        while j < m
                            invariant
                                j <= m == fields@.len(),
                            decreases m - j,
                        {
                            children.push(fields[j].id);
                            j = j + 1;
                        }
                    },
                }
            },
        }
        self.emitted.push(tid);
        proof {
            assert(self.emitted@[self.emitted@.len() - 1] == tid);
            assert(old(self).emitted@ =~= self.emitted@.subrange(
                0,
                old(self).emitted@.len() as int,
            ));
        }
        let ghost mut emitted_ids: Seq<i64> = Seq::empty();
        let n = children.len();
        let mut i: usize = 0;
        while i < n
            invariant
                i <= n == children@.len(),
                64 <= tid,
                !old(self).emitted@.contains(tid),
                self.schema == old(self).schema,
                old(self).emitted@.len() < self.emitted@.len(),
                self.emitted@.len() <= self.schema.entries@.len(),
                old(self).output@.is_prefix_of(self.output@),
                old(self).emitted@.is_prefix_of(self.emitted@),
                self.emitted@.contains(tid),
                are_definition_ids(old(self).schema, emitted_ids),
                self.output@ == old(self).output@ + def_sections_of(
                    old(self).schema,
                    emitted_ids,
                ),
            decreases n - i,
        {
            let ghost mid_emitted = self.emitted@;
            let (child_result, child_ids) = self.emit_definition(children[i]);
            match child_result {
                Ok(()) => {},
                Err(e) => {
                    return (Err(e), Ghost(empty_ids));
                },
            }
            proof {
                assert(old(self).output@ =~= self.output@.subrange(
                    0,
                    old(self).output@.len() as int,
                ));
                assert(old(self).emitted@ =~= self.emitted@.subrange(
                    0,
                    old(self).emitted@.len() as int,
                ));
                let idx = choose|j: int| 0 <= j < mid_emitted.len() && mid_emitted[j] == tid;
                assert(mid_emitted[idx] == self.emitted@.subrange(0, mid_emitted.len() as int)[idx]);
                assert(self.emitted@[idx] == tid);
                lemma_def_sections_concat(old(self).schema, emitted_ids, child_ids@);
                let joined = emitted_ids + child_ids@;
                assert forall|k: int| 0 <= k < joined.len() implies 64 <= #[trigger] joined[k] && (
                old(self).schema.lookup_spec(joined[k]) matches Some(w2) && w2.id() == joined[k]
                    && !(w2 is Builtin)) by {
                    if k < emitted_ids.len() {
                        assert(joined[k] == emitted_ids[k]);
                    } else {
                        assert(joined[k] == child_ids@[k - emitted_ids.len()]);
                    }
                }
                emitted_ids = joined;
            }
            i = i + 1;
        }
        if payload.len() as u64 >= u64::MAX - 16 {
            return (Err(Error::SchemaMismatch), Ghost(empty_ids));
        }
        write_section(&mut self.output, -tid, &payload);
        proof {
            let schema0 = old(self).schema;
            let own = seq![tid];
            assert(own[0] == tid && own.drop_first().len() == 0);
            assert(schema0.lookup_spec(tid) == Some(wt));
            assert(def_sections_of(schema0, own.drop_first()) =~= Seq::<u8>::empty());
            assert(def_sections_of(schema0, own) =~= section_bytes(
                ((0 - tid as int)) as i64,
                crate::wire::wire_def_payload(wt),
            ) + def_sections_of(schema0, own.drop_first()));
            assert(def_sections_of(schema0, own) =~= section_bytes(
                ((0 - tid as int)) as i64,
                crate::wire::wire_def_payload(wt),
            ));
            lemma_def_sections_concat(schema0, emitted_ids, own);
            let joined = emitted_ids + own;
            assert forall|k: int| 0 <= k < joined.len() implies 64 <= #[trigger] joined[k] && (
            schema0.lookup_spec(joined[k]) matches Some(w2) && w2.id() == joined[k] && !(w2
                is Builtin)) by {
                if k < emitted_ids.len() {
                    assert(joined[k] == emitted_ids[k]);
                } else {
                    assert(joined[k] == tid);
                }
            }
            assert(self.output@ =~= old(self).output@ + def_sections_of(schema0, joined));
            emitted_ids = joined;
        }
        (Ok(()), Ghost(emitted_ids))
    }

    /// Emit any definitions `type_id` still needs, then the value
    /// section itself: the framed payload of `value` encoded as
    /// `type_id` says. On success the output grew by those definition
    /// sections followed by exactly that one value section.
    pub fn encode(&mut self, type_id: i64, value: &Value) -> (r: Result<(), Error>)
        requires
            old(self).emitted@.len() <= old(self).schema.entries@.len(),
        ensures
            final(self).schema == old(self).schema,
            final(self).emitted@.len() <= final(self).schema.entries@.len(),
            r is Ok ==> (enc_value_payload(old(self).schema, type_id, *value) matches Some(b)
                && ({
                let all = final(self).output@;
                let section = section_bytes(type_id, b);
                all.len() >= section.len() && all.subrange(
                    all.len() - section.len(),
                    all.len() as int,
                ) == section
            })),
            r is Ok ==> (enc_value_payload(old(self).schema, type_id, *value) matches Some(b)
                && exists|ids: Seq<i64>|
                    are_definition_ids(old(self).schema, ids) && final(self).output@ == old(
                        self,
                    ).output@ + (#[trigger] def_sections_of(old(self).schema, ids))
                        + section_bytes(type_id, b)),
            type_id < 64 ==> (enc_value_payload(old(self).schema, type_id, *value) matches Some(b)
                ==> (b.len() + 16 < u64::MAX ==> r is Ok)),
    {
        let (def_result, def_ids) = self.emit_definition(type_id);
        match def_result {
            Ok(()) => {},
            Err(e) => {
                return Err(e);
            },
        }
        let mut payload: Vec<u8> = Vec::new();
        match encode_value_payload(&self.schema, type_id, value, &mut payload) {
            Ok(()) => {},
            Err(e) => {
                return Err(e);
            },
        }
        if payload.len() as u64 >= u64::MAX - 16 {
            return Err(Error::SchemaMismatch);
        }
        let ghost mid = self.output@;
        write_section(&mut self.output, type_id, &payload);
        proof {
            let section = section_bytes(type_id, payload@);
            assert(self.output@.subrange(
                self.output@.len() - section.len(),
                self.output@.len() as int,
            ) =~= section);
            assert(self.output@ =~= old(self).output@ + def_sections_of(
                old(self).schema,
                def_ids@,
            ) + section);
        }
        Ok(())
    }

    /// Hand out the bytes framed so far and start the next batch empty.
    pub fn take_output(&mut self) -> (r: Vec<u8>)
        ensures
            r@ == old(self).output@,
            final(self).output@ == Seq::<u8>::empty(),
            final(self).schema == old(self).schema,
            final(self).emitted == old(self).emitted,
    {
        let mut taken: Vec<u8> = Vec::new();
        core::mem::swap(&mut taken, &mut self.output);
        taken
    }
}

} // verus!
