use vstd::prelude::*;

use crate::buffer::Buffer;
use crate::error::{Error, MessageReadError, ParseFault};
use crate::varint::{
    ivarint, ivarint_at, lemma_ivarint_at_frame, lemma_ivarint_round_trip, lemma_uvarint_at_frame,
    lemma_uvarint_at_shift, lemma_uvarint_round_trip, read_ivarint, read_uvarint, uvarint,
    uvarint_at, uvarint_bad, write_ivarint, write_uvarint, zigzag,
};

verus! {

// ---------------------------------------------------------------------------
// One section on the wire:
//
//  <---> message offset
//        <--------------------> message length
// [ len | type id | payload... ]
//  <-------------> payload offset
//                  <----------> payload length
// ---------------------------------------------------------------------------
/// Where a parsed section lies inside the buffer window: its type id,
/// and the bounds of its payload. The bytes before `payload_start`
/// are the length prefix and the type id; `payload_end` is also where
/// the next section begins.
#[derive(Clone, Copy, Debug, PartialEq, Eq, Structural)]
pub struct SectionHeader {
    pub type_id: i64,
    pub payload_start: usize,
    pub payload_end: usize,
}

/// The section at the head of window `s`: its type id and payload
/// bounds, or `None` when the window does not yet hold a whole one.
pub open spec fn section_at(s: Seq<u8>) -> Option<(i64, int, int)> {
    match uvarint_at(s, 0, s.len() as int) {
        None => None,
        Some((mlen, off)) => {
            if off + mlen > s.len() {
                None
            } else {
                match ivarint_at(s, off, off + mlen) {
                    None => None,
                    Some((tid, poff)) => Some((tid, poff, off + mlen)),
                }
            }
        },
    }
}

/// The head of `s` can never grow into a section: its length varint is
/// malformed, or the announced length has arrived in full but the type
/// id inside does not decode.
pub open spec fn section_bad(s: Seq<u8>) -> bool {
    ||| uvarint_bad(s, 0, s.len() as int)
    ||| (match uvarint_at(s, 0, s.len() as int) {
        None => false,
        Some((mlen, off)) => off + mlen <= s.len() && ivarint_at(s, off, off + mlen) is None,
    })
}

/// The wire bytes of one whole section around `payload`.
pub open spec fn section_bytes(type_id: i64, payload: Seq<u8>) -> Seq<u8> {
    uvarint((ivarint(type_id).len() + payload.len()) as u64) + ivarint(type_id) + payload
}

/// The read side of the framing layer, around the source `Io` that
/// delivers bytes into the buffer.
pub struct Stream<Io> {
    pub inner: Io,
}

/// What the framing layer says after looking at the buffer: wait for
/// more bytes, a clean end between sections, or one whole section.
#[derive(Debug, PartialEq, Eq)]
pub enum SectionStep {
    NeedBytes,
    End,
    Section(SectionHeader),
}

impl<Io> Stream<Io> {
    pub fn new(inner: Io) -> (r: Stream<Io>)
        ensures
            r.inner == inner,
    {
        Stream { inner }
    }

    pub fn get_ref(&self) -> (r: &Io)
        ensures
            *r == self.inner,
    {
        &self.inner
    }

    pub fn get_mut(&mut self) -> (r: &mut Io)
        ensures
            *r == old(self).inner,
            final(self).inner == *final(r),
    {
        &mut self.inner
    }

    pub fn into_inner(self) -> (r: Io)
        ensures
            r == self.inner,
    {
        self.inner
    }

    /// Try to parse one section at the head of the window. Nothing is
    /// consumed: the caller advances past the payload once done with it.
    pub fn parse_section(&self, buf: &Buffer) -> (r: Result<SectionHeader, MessageReadError>)
        ensures
            match r {
                Ok(h) => section_at(buf.window()) == Some(
                    (h.type_id, h.payload_start as int, h.payload_end as int),
                ) && 0 < h.payload_start <= h.payload_end <= buf.window().len(),
                Err(MessageReadError::Incomplete) => section_at(buf.window()) is None
                    && !section_bad(buf.window()),
                Err(MessageReadError::Parse(f)) => f == ParseFault::MalformedVarint && section_bad(
                    buf.window(),
                ),
            },
    {
        let n = buf.data.len();
        let (msg_length, msg_offset) = match read_uvarint(&buf.data, 0, n) {
            Ok(p) => p,
            Err(e) => {
                return Err(e);
            },
        };
        if msg_length > (n - msg_offset) as u64 {
            return Err(MessageReadError::Incomplete);
        }
        let end = msg_offset + (msg_length as usize);
        match read_ivarint(&buf.data, msg_offset, end) {
            Ok((type_id, payload_offset)) => Ok(
                SectionHeader { type_id, payload_start: payload_offset, payload_end: end },
            ),
            Err(_) => Err(MessageReadError::Parse(ParseFault::MalformedVarint)),
        }
    }

    /// One step of the read loop, with the source's state handed in:
    /// `source_done` says the source has no further byte to give. An
    /// empty window at the end is a clean end of stream; a partial
    /// section there is an unexpected end of file.
    pub fn read_section(&self, buf: &Buffer, source_done: bool) -> (r: Result<SectionStep, Error>)
        ensures
            match r {
                Ok(SectionStep::Section(h)) => section_at(buf.window()) == Some(
                    (h.type_id, h.payload_start as int, h.payload_end as int),
                ) && 0 < h.payload_start <= h.payload_end <= buf.window().len(),
                Ok(SectionStep::End) => source_done && buf.window().len() == 0,
                Ok(SectionStep::NeedBytes) => !source_done && section_at(buf.window()) is None
                    && !section_bad(buf.window()),
                Err(Error::UnexpectedEof) => source_done && buf.window().len() > 0 && section_at(
                    buf.window(),
                ) is None && !section_bad(buf.window()),
                Err(Error::Parse(f)) => f == ParseFault::MalformedVarint && section_bad(
                    buf.window(),
                ),
                Err(Error::SchemaMismatch) => false,
            },
    {
        if buf.len() == 0 {
            if source_done {
                return Ok(SectionStep::End);
            }
            return Ok(SectionStep::NeedBytes);
        }
        match self.parse_section(buf) {
            Ok(h) => Ok(SectionStep::Section(h)),
            Err(MessageReadError::Incomplete) => {
                if source_done {
                    Err(Error::UnexpectedEof)
                } else {
                    Ok(SectionStep::NeedBytes)
                }
            },
            Err(MessageReadError::Parse(_)) => Err(Error::Parse(ParseFault::MalformedVarint)),
        }
    }
}

/// Frame `payload` as one section: its length (type id included), the
/// type id, then the payload, appended to `out`.
pub fn write_section(out: &mut Vec<u8>, type_id: i64, payload: &Vec<u8>)
    requires
        payload@.len() + 16 < u64::MAX,
    ensures
        final(out)@ == old(out)@ + section_bytes(type_id, payload@),
{
    let mut tid_bytes: Vec<u8> = Vec::new();
    write_ivarint(&mut tid_bytes, type_id);
    proof {
        lemma_ivarint_round_trip(type_id, Seq::empty());
        assert(ivarint(type_id).len() <= 9) by {
            crate::varint::lemma_uvarint_minimal(zigzag(type_id));
            crate::varint::lemma_min_be_len_u64(zigzag(type_id));
        }
    }
    let total: u64 = (tid_bytes.len() as u64) + (payload.len() as u64);
    write_uvarint(out, total);
    let mut moved = tid_bytes;
    out.append(&mut moved);
    out.extend_from_slice(payload.as_slice());
    proof {
        assert(final(out)@ =~= old(out)@ + section_bytes(type_id, payload@));
    }
}

// ---------------------------------------------------------------------------
// The framing laws.
// ---------------------------------------------------------------------------
/// Reading a written section yields exactly the type id and payload
/// that were framed, consumes exactly the written bytes, and does so
/// under any tail: the write and read sides of the framing agree.
pub proof fn lemma_section_round_trip(type_id: i64, payload: Seq<u8>, tail: Seq<u8>)
    requires
        payload.len() + 16 < u64::MAX,
    ensures
        ({
            let framed = section_bytes(type_id, payload);
            let s = framed + tail;
            let header_len = uvarint((ivarint(type_id).len() + payload.len()) as u64).len() as int;
            let tid_len = ivarint(type_id).len() as int;
            &&& section_at(s) == Some(
                (type_id, header_len + tid_len, framed.len() as int),
            )
            &&& framed.len() == header_len + tid_len + payload.len()
            &&& s.subrange(header_len + tid_len, framed.len() as int) == payload
        }),
{
    let tid_seq = ivarint(type_id);
    assert(tid_seq.len() <= 9) by {
        crate::varint::lemma_uvarint_minimal(zigzag(type_id));
        crate::varint::lemma_min_be_len_u64(zigzag(type_id));
    }
    let mlen: u64 = (tid_seq.len() + payload.len()) as u64;
    let framed = section_bytes(type_id, payload);
    let s = framed + tail;
    let header = uvarint(mlen);
    let hl = header.len() as int;
    let tl = tid_seq.len() as int;
    assert(s =~= header + (tid_seq + (payload + tail)));
    lemma_uvarint_round_trip(mlen, tid_seq + (payload + tail));
    lemma_uvarint_at_frame(
        header + (tid_seq + (payload + tail)),
        s,
        0,
        s.len() as int,
        s.len() as int,
    );
    assert(uvarint_at(s, 0, s.len() as int) == Some((mlen, hl)));
    assert(hl + mlen <= s.len());
    // the type id sits right after the length prefix
    lemma_uvarint_at_shift(s, hl, hl + mlen as int);
    let sub = s.subrange(hl, hl + mlen as int);
    assert(sub =~= tid_seq + payload);
    lemma_ivarint_round_trip(type_id, payload);
    assert(ivarint_at(sub, 0, mlen as int) == Some((type_id, tl)));
    assert(ivarint_at(s, hl, hl + mlen as int) == Some((type_id, hl + tl)));
    assert(s.subrange(hl + tl, framed.len() as int) =~= payload);
}

/// A parsed section is a fact about its own bytes alone: any extension
/// of the window parses the same section. Feeding a stream byte by
/// byte therefore yields the same sections as feeding it whole.
pub proof fn lemma_section_extend(s: Seq<u8>, more: Seq<u8>)
    requires
        section_at(s) is Some,
    ensures
        section_at(s + more) == section_at(s),
{
    let s2 = s + more;
    let (mlen, off) = uvarint_at(s, 0, s.len() as int)->Some_0;
    lemma_uvarint_at_frame(s, s2, 0, s.len() as int, s2.len() as int);
    lemma_ivarint_at_frame(s, s2, off, off + mlen, off + mlen);
}

/// A window with a whole section at its head is not condemned: the
/// two outcomes exclude each other.
pub proof fn lemma_section_at_not_bad(s: Seq<u8>)
    requires
        section_at(s) is Some,
    ensures
        !section_bad(s),
{
}

/// All the sections a window holds, in order: each one's type id and
/// payload bytes, stopping where no further whole section lies.
pub open spec fn section_seq(s: Seq<u8>) -> Seq<(i64, Seq<u8>)>
    decreases s.len(),
{
    match section_at(s) {
        None => Seq::empty(),
        Some((tid, ps, pe)) => {
            if 0 < pe <= s.len() {
                seq![(tid, s.subrange(ps, pe))] + section_seq(s.subrange(pe, s.len() as int))
            } else {
                Seq::empty()
            }
        },
    }
}

/// Incremental reading is lossless, stated whole: the sections of any
/// cut of a stream are a prefix of the sections of the stream. Feeding
/// the reader bytes one at a time therefore yields the same sequence
/// of sections, in the same order, as feeding all bytes at once.
pub proof fn lemma_section_seq_prefix(s: Seq<u8>, k: int)
    requires
        0 <= k <= s.len(),
    ensures
        section_seq(s.subrange(0, k)).is_prefix_of(section_seq(s)),
    decreases s.len(),
{
    let cut = s.subrange(0, k);
    match section_at(cut) {
        None => {
            assert(section_seq(cut) =~= Seq::<(i64, Seq<u8>)>::empty());
        },
        Some((tid, ps, pe)) => {
            let rest = s.subrange(k, s.len() as int);
            assert(s =~= cut + rest);
            lemma_section_extend(cut, rest);
            assert(section_at(s) == Some((tid, ps, pe)));
            assert(0 < ps <= pe <= cut.len()) by {
                let (mlen, off) = uvarint_at(cut, 0, cut.len() as int)->Some_0;
            }
            assert(cut.subrange(ps, pe) =~= s.subrange(ps, pe));
            let cut_tail = cut.subrange(pe, k);
            let s_tail = s.subrange(pe, s.len() as int);
            assert(cut_tail =~= s_tail.subrange(0, k - pe));
            lemma_section_seq_prefix(s_tail, k - pe);
            let t1 = section_seq(cut_tail);
            let t2 = section_seq(s_tail);
            assert(t1 =~= t2.subrange(0, t1.len() as int));
            let head = seq![(tid, s.subrange(ps, pe))];
            assert(section_seq(cut) == head + t1);
            assert(section_seq(s) == head + t2);
            assert((head + t1) =~= (head + t2).subrange(0, (head + t1).len() as int));
        },
    }
}

/// Conversely a whole section needs nothing past its end: the window
/// cut anywhere at or after it parses the same section.
pub proof fn lemma_section_local(s: Seq<u8>, k: int)
    requires
        section_at(s) is Some,
        section_at(s)->Some_0.2 <= k <= s.len(),
    ensures
        section_at(s.subrange(0, k)) == section_at(s),
{
    let cut = s.subrange(0, k);
    let (mlen, off) = uvarint_at(s, 0, s.len() as int)->Some_0;
    let (tid, poff) = ivarint_at(s, off, off + mlen)->Some_0;
    lemma_uvarint_at_frame(s, cut, 0, s.len() as int, k);
    lemma_ivarint_at_frame(s, cut, off, off + mlen, off + mlen);
}

} // verus!
