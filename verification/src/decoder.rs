use vstd::prelude::*;

use crate::buffer::Buffer;
use crate::error::{Error, ParseFault};
use crate::message::{copy_range, Cursor, Message};
use crate::stream::{SectionStep, Stream};
use crate::types::{Types, WireType};
use crate::value::{decode_value, Value};
use crate::varint::{ivarint_at, uvarint_at, uvarint_bad};
use crate::wire::parse_wire_type;

verus! {

/// What one call of `try_next_value` can come to.
#[derive(Debug, PartialEq, Eq)]
pub enum NextValue {
    /// The buffer holds no whole section yet and the source has more:
    /// feed another chunk, then ask again.
    NeedBytes,
    /// A clean end of stream: the source is done and no byte is left.
    End,
    /// One value section, decoded: its type id and its value.
    Value(i64, Value),
}

/// The decoded value a stream step delivered, if any.
pub open spec fn delivered_value(r: Result<NextValue, Error>) -> Option<Value> {
    match r {
        Ok(nv) => match nv {
            NextValue::Value(_, v) => Some(v),
            _ => None,
        },
        Err(_) => None,
    }
}

/// Enforce the definition rule of a type-definition section and file
/// the descriptor. The stream header announced `stream_id` (negative);
/// the descriptor inside must carry exactly the id `-stream_id`, and
/// an id already live may not be defined again.
pub fn install_definition(defs: &mut Types, stream_id: i64, w: WireType) -> (r: Result<(), Error>)
    requires
        stream_id < 0,
    ensures
        stream_id == i64::MIN || w.id() != -stream_id ==> r == Err::<(), Error>(
            Error::Parse(ParseFault::TypeIdMismatch),
        ) && *final(defs) == *old(defs),
        stream_id > i64::MIN && w.id() == -stream_id && old(defs).lookup_spec(w.id()) is Some ==> r
            == Err::<(), Error>(Error::Parse(ParseFault::TypeRedefined)) && *final(defs) == *old(
            defs,
        ),
        stream_id > i64::MIN && w.id() == -stream_id && old(defs).lookup_spec(w.id()) is None ==> r
            is Ok && final(defs).entries@ == old(defs).entries@.push(w) && final(defs).lookup_spec(
            w.id(),
        ) == Some(w),
        forall|id: i64|
            old(defs).lookup_spec(id) is Some ==> #[trigger] final(defs).lookup_spec(id) == old(
                defs,
            ).lookup_spec(id),
{
    if stream_id == i64::MIN {
        return Err(Error::Parse(ParseFault::TypeIdMismatch));
    }
    if w.common().id != -stream_id {
        return Err(Error::Parse(ParseFault::TypeIdMismatch));
    }
    match defs.lookup(w.common().id) {
        Some(_) => Err(Error::Parse(ParseFault::TypeRedefined)),
        None => {
            defs.insert(w);
            Ok(())
        },
    }
}

/// The read side of a gob stream: the source `R` the caller pulls
/// bytes from, the buffer those bytes accumulate in, and the type
/// dictionary the stream builds up as its definitions arrive.
pub struct StreamDeserializer<R> {
    pub defs: Types,
    pub stream: Stream<R>,
    pub buffer: Buffer,
}

impl<R> StreamDeserializer<R> {
    /// A fresh stream around `read`: an empty buffer, a dictionary
    /// holding exactly the built-in entries.
    pub fn new(read: R) -> (r: StreamDeserializer<R>)
        ensures
            r.stream.inner == read,
            r.buffer.window() == Seq::<u8>::empty(),
            forall|id: i64|
                crate::types::is_builtin_id(id) ==> (#[trigger] r.defs.lookup_spec(id)) is Some,
            forall|id: i64|
                !crate::types::is_builtin_id(id) ==> (#[trigger] r.defs.lookup_spec(id)) is None,
    {
        StreamDeserializer { defs: Types::new(), stream: Stream::new(read), buffer: Buffer::new() }
    }

    pub fn get_ref(&self) -> (r: &R)
        ensures
            *r == self.stream.inner,
    {
        self.stream.get_ref()
    }

    pub fn get_mut(&mut self) -> (r: &mut R)
        ensures
            *r == old(self).stream.inner,
            final(self).stream.inner == *final(r),
            final(self).defs == old(self).defs,
            final(self).buffer == old(self).buffer,
    {
        self.stream.get_mut()
    }

    pub fn into_inner(self) -> (r: R)
        ensures
            r == self.stream.inner,
    {
        self.stream.into_inner()
    }

    /// Hand the decoder a chunk the source delivered. An empty chunk
    /// is allowed and changes nothing.
    pub fn feed(&mut self, chunk: &[u8])
        ensures
            final(self).buffer.window() == old(self).buffer.window() + chunk@,
            final(self).defs == old(self).defs,
            final(self).stream == old(self).stream,
    {
        self.buffer.feed(chunk);
    }

    /// Walk the buffered sections: apply every type definition to the
    /// dictionary, and stop at the first value section, decoded. With
    /// `source_done` the caller says the source has nothing further;
    /// only then can a clean end (or an unexpected one) be told.
    ///
    /// The dictionary only ever grows: whatever an id resolved to
    /// before the call, it still resolves to after it.
    pub fn try_next_value(&mut self, source_done: bool) -> (r: Result<NextValue, Error>)
        ensures
            forall|id: i64|
                old(self).defs.lookup_spec(id) is Some ==> #[trigger] final(self).defs.lookup_spec(
                    id,
                ) == old(self).defs.lookup_spec(id),
            final(self).stream == old(self).stream,
            r matches Ok(NextValue::End) ==> source_done && final(self).buffer.window().len() == 0,
            source_done && old(self).buffer.window().len() == 0 ==> r == Ok::<NextValue, Error>(
                NextValue::End,
            ),
            r matches Ok(NextValue::NeedBytes) ==> !source_done && crate::stream::section_at(
                final(self).buffer.window(),
            ) is None && !crate::stream::section_bad(final(self).buffer.window()),
            r matches Ok(NextValue::Value(type_id, _)) ==> type_id >= 0,
            r matches Ok(NextValue::Value(type_id, _)) ==> exists|c: int|
                0 <= c <= old(self).buffer.window().len() && (#[trigger] crate::stream::section_at(
                    old(self).buffer.window().subrange(
                        c,
                        old(self).buffer.window().len() as int,
                    ),
                ) matches Some((t, ps, pe)) && t == type_id && final(self).buffer.window() == old(
                    self,
                ).buffer.window().subrange(c + pe, old(self).buffer.window().len() as int)),
            r == Err::<NextValue, Error>(Error::UnexpectedEof) ==> ((source_done
                && final(self).buffer.window().len() > 0 && crate::stream::section_at(final(self).buffer.window())
                is None && !crate::stream::section_bad(final(self).buffer.window()))
                || crate::stream::section_at(final(self).buffer.window()) is Some),
            exists|c: int|
                0 <= c <= old(self).buffer.window().len() && final(self).buffer.window() == old(
                    self,
                ).buffer.window().subrange(c, old(self).buffer.window().len() as int),
            ({
                let w0 = old(self).buffer.window();
                crate::stream::section_at(w0) matches Some((tid, ps, pe)) ==> ((
                crate::value::is_plain_scalar(tid) && !crate::value::resolves_to_struct(
                    old(self).defs,
                    tid,
                )) ==> ({
                    let payload = w0.subrange(ps, pe);
                    uvarint_at(payload, 0, payload.len() as int) matches Some((d, q1)) ==> (d == 0
                        ==> (crate::value::scalar_value_at(tid, payload, q1) matches Some(pr)
                        ==> (r matches Ok(nv) && nv matches NextValue::Value(t2, v) && t2 == tid
                        && v == pr.0)))
                }))
            }),
            ({
                let w0 = old(self).buffer.window();
                crate::stream::section_at(w0) matches Some((tid, ps, pe)) ==> ((tid < 0 && tid
                    > i64::MIN && r is Ok) ==> final(self).defs.lookup_spec(
                    ((0 - tid as int)) as i64,
                ) is Some)
            }),
            ({
                let w0 = old(self).buffer.window();
                crate::stream::section_at(w0) matches Some((tid, ps, pe))
                    ==> crate::value::slice_section_outcome(
                    old(self).defs,
                    tid,
                    w0.subrange(ps, pe),
                    0,
                    delivered_value(r),
                )
            }),
    {
        let ghost orig = self.buffer.window();
        let ghost mut consumed: int = 0;
        proof {
            assert(orig.subrange(0, orig.len() as int) =~= orig);
        }
        loop
            invariant
                forall|id: i64|
                    old(self).defs.lookup_spec(id) is Some ==> #[trigger] self.defs.lookup_spec(id)
                        == old(self).defs.lookup_spec(id),
                self.stream == old(self).stream,
                orig == old(self).buffer.window(),
                0 <= consumed <= orig.len(),
                self.buffer.window() == orig.subrange(consumed, orig.len() as int),
                consumed == 0 ==> self.defs == old(self).defs,
                consumed > 0 ==> (crate::stream::section_at(orig) matches Some((t0, _, _)) ==> t0
                    < 0),
                consumed > 0 ==> (crate::stream::section_at(orig) matches Some((t0, _, _)) ==> ((t0
                    < 0 && t0 > i64::MIN) ==> self.defs.lookup_spec(((0 - t0 as int)) as i64)
                    is Some)),
            decreases self.buffer.window().len(),
        {
            proof {
                assert(orig.subrange(0, orig.len() as int) =~= orig);
                if crate::stream::section_at(self.buffer.window()) is Some {
                    crate::stream::lemma_section_at_not_bad(self.buffer.window());
                }
            }
            let step = match self.stream.read_section(&self.buffer, source_done) {
                Ok(s) => s,
                Err(e) => {
                    return Err(e);
                },
            };
            let header = match step {
                SectionStep::End => {
                    return Ok(NextValue::End);
                },
                SectionStep::NeedBytes => {
                    return Ok(NextValue::NeedBytes);
                },
                SectionStep::Section(h) => h,
            };
            let payload = copy_range(&self.buffer.data, header.payload_start, header.payload_end);
            let mut msg = Message::new(Cursor::new(payload));
            if header.type_id >= 0 {
                let value = match decode_value(&self.defs, header.type_id, &mut msg) {
                    Ok(v) => v,
                    Err(e) => {
                        return Err(e);
                    },
                };
                let ghost before = self.buffer.window();
                let ghost c0 = consumed;
                self.buffer.advance(header.payload_end);
                proof {
                    assert(before.subrange(header.payload_end as int, before.len() as int)
                        =~= orig.subrange(consumed + header.payload_end, orig.len() as int));
                    assert(crate::stream::section_at(orig.subrange(c0, orig.len() as int))
                        matches Some((t, ps, pe)) && t == header.type_id && self.buffer.window()
                        == orig.subrange(c0 + pe, orig.len() as int));
                    consumed = consumed + header.payload_end;
                }
                return Ok(NextValue::Value(header.type_id, value));
            }
            let wire_type = match parse_wire_type(&mut msg) {
                Ok(w) => w,
                Err(e) => {
                    return Err(e);
                },
            };
            match install_definition(&mut self.defs, header.type_id, wire_type) {
                Ok(()) => {},
                Err(e) => {
                    return Err(e);
                },
            }
            let ghost before = self.buffer.window();
            self.buffer.advance(header.payload_end);
            proof {
                assert(before.subrange(header.payload_end as int, before.len() as int)
                    =~= orig.subrange(consumed + header.payload_end, orig.len() as int));
                consumed = consumed + header.payload_end;
            }
        }
    }
}

/// A decoder over one in-memory byte string that carries its own
/// private dictionary: the stand-alone counterpart of the stream
/// decoder, for a value already framed as `length || type_id || body`.
pub struct Deserializer {
    pub defs: Types,
    pub msg: Message<Cursor>,
}

impl Deserializer {
    /// Decode `input` from its start, with a fresh built-in dictionary.
    pub fn from_slice(input: Vec<u8>) -> (r: Deserializer)
        ensures
            r.msg.buf.data == input,
            r.msg.buf.pos == 0,
            r.msg.buf.wf(),
            forall|id: i64|
                crate::types::is_builtin_id(id) ==> (#[trigger] r.defs.lookup_spec(id)) is Some,
    {
        Deserializer { defs: Types::new(), msg: Message::new(Cursor::new(input)) }
    }

    /// Read sections until a value section arrives and decode it,
    /// applying type definitions on the way, all inside the in-memory
    /// bytes. The dictionary only ever grows.
    pub fn deserialize_value(&mut self) -> (r: Result<Value, Error>)
        requires
            old(self).msg.buf.wf(),
        ensures
            final(self).msg.buf.wf(),
            final(self).msg.buf.data == old(self).msg.buf.data,
            final(self).msg.buf.pos >= old(self).msg.buf.pos,
            r is Ok ==> final(self).msg.buf.pos > old(self).msg.buf.pos,
            forall|id: i64|
                old(self).defs.lookup_spec(id) is Some ==> #[trigger] final(self).defs.lookup_spec(
                    id,
                ) == old(self).defs.lookup_spec(id),
            ({
                let s = old(self).msg.buf.data@;
                let a = old(self).msg.buf.pos as int;
                let z = s.len() as int;
                uvarint_at(s, a, z) is None && !uvarint_bad(s, a, z)
            }) ==> r == Err::<Value, Error>(Error::UnexpectedEof),
            ({
                let s = old(self).msg.buf.data@;
                let a = old(self).msg.buf.pos as int;
                let z = s.len() as int;
                uvarint_bad(s, a, z)
            }) ==> r == Err::<Value, Error>(Error::Parse(ParseFault::MalformedVarint)),
            ({
                let s = old(self).msg.buf.data@;
                let a = old(self).msg.buf.pos as int;
                let z = s.len() as int;
                uvarint_at(s, a, z) matches Some((mlen, p1)) ==> (mlen <= z - p1 ==> (ivarint_at(
                    s,
                    p1,
                    z,
                ) matches Some((tid, p2)) ==> ((crate::value::is_plain_scalar(tid)
                    && !crate::value::resolves_to_struct(old(self).defs, tid)) ==> (uvarint_at(
                    s,
                    p2,
                    z,
                ) matches Some((d, p3)) ==> (d == 0 ==> (crate::value::scalar_value_at(tid, s, p3)
                    matches Some(pr) ==> (r matches Ok(v) && v == pr.0
                    && final(self).msg.buf.pos as int == pr.1)))))))
            }),
            ({
                let s = old(self).msg.buf.data@;
                let a = old(self).msg.buf.pos as int;
                let z = s.len() as int;
                uvarint_at(s, a, z) matches Some((mlen, p1)) ==> (ivarint_at(s, p1, z)
                    matches Some((tid, p2)) ==> ((tid < 0 && tid > i64::MIN && r is Ok)
                    ==> final(self).defs.lookup_spec(((0 - tid as int)) as i64) is Some))
            }),
            ({
                let s = old(self).msg.buf.data@;
                let a = old(self).msg.buf.pos as int;
                let z = s.len() as int;
                uvarint_at(s, a, z) matches Some((mlen, p1)) ==> (mlen <= z - p1 ==> (ivarint_at(
                    s,
                    p1,
                    z,
                ) matches Some((tid, p2)) ==> crate::value::slice_section_outcome(
                    old(self).defs,
                    tid,
                    s,
                    p2,
                    (if r is Ok {
                        Some(r->Ok_0)
                    } else {
                        None
                    }),
                )))
            }),
    {
        loop
            invariant
                self.msg.buf.wf(),
                self.msg.buf.data == old(self).msg.buf.data,
                self.msg.buf.pos >= old(self).msg.buf.pos,
                forall|id: i64|
                    old(self).defs.lookup_spec(id) is Some ==> #[trigger] self.defs.lookup_spec(id)
                        == old(self).defs.lookup_spec(id),
                self.msg.buf.pos == old(self).msg.buf.pos ==> self.defs == old(self).defs,
                self.msg.buf.pos > old(self).msg.buf.pos ==> ({
                    let s = old(self).msg.buf.data@;
                    let a = old(self).msg.buf.pos as int;
                    let z = s.len() as int;
                    uvarint_at(s, a, z) is Some && !uvarint_bad(s, a, z) && (uvarint_at(s, a, z)
                        matches Some((mlen, p1)) ==> (mlen <= z - p1 ==> (ivarint_at(s, p1, z)
                        matches Some((tid, p2)) ==> tid < 0)))
                }),
                self.msg.buf.pos > old(self).msg.buf.pos ==> ({
                    let s = old(self).msg.buf.data@;
                    let a = old(self).msg.buf.pos as int;
                    let z = s.len() as int;
                    uvarint_at(s, a, z) matches Some((mlen, p1)) ==> (ivarint_at(s, p1, z)
                        matches Some((tid, p2)) ==> ((tid < 0 && tid > i64::MIN)
                        ==> self.defs.lookup_spec(((0 - tid as int)) as i64) is Some))
                }),
            decreases self.msg.buf.remaining(),
        {
            let _section_len = match self.msg.read_bytes_len() {
                Ok(n) => n,
                Err(e) => {
                    return Err(Error::from_read(e));
                },
            };
            let type_id = match self.msg.read_int() {
                Ok(v) => v,
                Err(e) => {
                    return Err(Error::from_read(e));
                },
            };
            if type_id >= 0 {
                let ghost body_pos = self.msg.buf.pos as int;
                let value_result = decode_value(&self.defs, type_id, &mut self.msg);
                proof {
                    let s = old(self).msg.buf.data@;
                    let z = s.len() as int;
                    if value_result is Ok && value_result->Ok_0 is List
                        && !crate::value::resolves_to_struct(self.defs, type_id) && (
                    self.defs.lookup_spec(type_id) matches Some(wt) && wt is Slice) {
                        let elem = self.defs.lookup_spec(type_id)->Some_0->Slice_elem;
                        let es = value_result->Ok_0->List_0;
                        let dec0 = uvarint_at(s, body_pos, z);
                        if dec0 is Some && dec0->Some_0.0 == 0 {
                            let p3 = dec0->Some_0.1;
                            assert(uvarint_at(s, p3, z) matches Some((cnt, p4)) && cnt
                                == es@.len());
                            if crate::value::is_plain_scalar(elem) {
                                let p4 = uvarint_at(s, p3, z)->Some_0.1;
                                assert(crate::value::scalar_list_at(
                                    elem,
                                    s,
                                    p4,
                                    self.msg.buf.pos as int,
                                    es@,
                                ));
                                assert(exists|e2: int|
                                    crate::value::scalar_list_at(elem, s, p4, e2, es@));
                            }
                        }
                    }
                }
                return value_result;
            }
            let wire_type = match parse_wire_type(&mut self.msg) {
                Ok(w) => w,
                Err(e) => {
                    return Err(e);
                },
            };
            match install_definition(&mut self.defs, type_id, wire_type) {
                Ok(()) => {},
                Err(e) => {
                    return Err(e);
                },
            }
        }
    }
}

} // verus!
