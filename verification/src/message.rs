use vstd::prelude::*;

use crate::error::{MessageReadError, ParseFault};
use crate::varint::{
    ivarint, ivarint_at, read_ivarint, read_uvarint, swap64, swap_bytes64, uvarint, uvarint_at,
    uvarint_bad, write_ivarint, write_uvarint,
};

verus! {

/// A positional read window over a byte vector: the bytes from `pos`
/// on are still to be read.
pub struct Cursor {
    pub data: Vec<u8>,
    pub pos: usize,
}

impl Cursor {
    /// The window is sound while the position stays inside the bytes.
    pub open spec fn wf(self) -> bool {
        self.pos <= self.data@.len()
    }

    /// How many bytes are still to be read.
    pub open spec fn remaining(self) -> int {
        self.data@.len() - self.pos
    }

    pub fn new(data: Vec<u8>) -> (r: Cursor)
        ensures
            r.data == data,
            r.pos == 0,
            r.wf(),
    {
        Cursor { data, pos: 0 }
    }
}

/// Copy the bytes of `s` between `start` and `end` into a fresh vector.
pub fn copy_range(s: &Vec<u8>, start: usize, end: usize) -> (r: Vec<u8>)
    requires
        start <= end <= s.len(),
    ensures
        r@ == s@.subrange(start as int, end as int),
{
    let mut out: Vec<u8> = Vec::new();
    let mut i: usize = start;
    while i < end
        invariant
            start <= i <= end <= s.len(),
            out@ == s@.subrange(start as int, i as int),
        decreases end - i,
    {
        out.push(s[i]);
        proof {
            assert(out@ =~= s@.subrange(start as int, i + 1 as int));
        }
        i = i + 1;
    }
    out
}

/// A gob message: typed reads over a cursor, typed writes onto a
/// growing byte vector, everything spelled through the varint codec.
pub struct Message<B> {
    pub buf: B,
}

impl<B> Message<B> {
    pub fn new(buf: B) -> (r: Message<B>)
        ensures
            r.buf == buf,
    {
        Message { buf }
    }

    pub fn get_ref(&self) -> (r: &B)
        ensures
            *r == self.buf,
    {
        &self.buf
    }

    pub fn get_mut(&mut self) -> (r: &mut B)
        ensures
            *r == old(self).buf,
            final(self).buf == *final(r),
    {
        &mut self.buf
    }

    pub fn into_inner(self) -> (r: B)
        ensures
            r == self.buf,
    {
        self.buf
    }
}

impl Message<Cursor> {
    /// Read one unsigned varint and move past it. A failed read
    /// reports why and leaves the cursor where it stood.
    pub fn read_uint(&mut self) -> (r: Result<u64, MessageReadError>)
        requires
            old(self).buf.wf(),
        ensures
            final(self).buf.wf(),
            final(self).buf.data == old(self).buf.data,
            match r {
                Ok(v) => uvarint_at(
                    old(self).buf.data@,
                    old(self).buf.pos as int,
                    old(self).buf.data@.len() as int,
                ) == Some((v, final(self).buf.pos as int)) && old(self).buf.pos
                    < final(self).buf.pos,
                Err(e) => *final(self) == *old(self) && (match e {
                    MessageReadError::Incomplete => uvarint_at(
                        old(self).buf.data@,
                        old(self).buf.pos as int,
                        old(self).buf.data@.len() as int,
                    ) is None && !uvarint_bad(
                        old(self).buf.data@,
                        old(self).buf.pos as int,
                        old(self).buf.data@.len() as int,
                    ),
                    MessageReadError::Parse(f) => f == ParseFault::MalformedVarint && uvarint_bad(
                        old(self).buf.data@,
                        old(self).buf.pos as int,
                        old(self).buf.data@.len() as int,
                    ),
                }),
            },
    {
        let len = self.buf.data.len();
        match read_uvarint(&self.buf.data, self.buf.pos, len) {
            Ok((v, p)) => {
                self.buf.pos = p;
                Ok(v)
            },
            Err(e) => Err(e),
        }
    }

    /// Read one signed varint: the unsigned one with zig-zag undone.
    pub fn read_int(&mut self) -> (r: Result<i64, MessageReadError>)
        requires
            old(self).buf.wf(),
        ensures
            final(self).buf.wf(),
            final(self).buf.data == old(self).buf.data,
            match r {
                Ok(v) => ivarint_at(
                    old(self).buf.data@,
                    old(self).buf.pos as int,
                    old(self).buf.data@.len() as int,
                ) == Some((v, final(self).buf.pos as int)) && old(self).buf.pos
                    < final(self).buf.pos,
                Err(e) => *final(self) == *old(self) && (match e {
                    MessageReadError::Incomplete => ivarint_at(
                        old(self).buf.data@,
                        old(self).buf.pos as int,
                        old(self).buf.data@.len() as int,
                    ) is None && !uvarint_bad(
                        old(self).buf.data@,
                        old(self).buf.pos as int,
                        old(self).buf.data@.len() as int,
                    ),
                    MessageReadError::Parse(f) => f == ParseFault::MalformedVarint && uvarint_bad(
                        old(self).buf.data@,
                        old(self).buf.pos as int,
                        old(self).buf.data@.len() as int,
                    ),
                }),
            },
    {
        let len = self.buf.data.len();
        match read_ivarint(&self.buf.data, self.buf.pos, len) {
            Ok((v, p)) => {
                self.buf.pos = p;
                Ok(v)
            },
            Err(e) => Err(e),
        }
    }

    /// Read a boolean: the uints 0 and 1 and nothing else.
    pub fn read_bool(&mut self) -> (r: Result<bool, MessageReadError>)
        requires
            old(self).buf.wf(),
        ensures
            final(self).buf.wf(),
            final(self).buf.data == old(self).buf.data,
            final(self).buf.pos >= old(self).buf.pos,
            match r {
                Ok(v) => ({
                    let dec = uvarint_at(
                        old(self).buf.data@,
                        old(self).buf.pos as int,
                        old(self).buf.data@.len() as int,
                    );
                    dec is Some && dec->Some_0.0 == (if v {
                        1u64
                    } else {
                        0u64
                    }) && dec->Some_0.1 == final(self).buf.pos as int
                }),
                Err(MessageReadError::Parse(f)) => ({
                    let dec = uvarint_at(
                        old(self).buf.data@,
                        old(self).buf.pos as int,
                        old(self).buf.data@.len() as int,
                    );
                    (f == ParseFault::IntegerOverflow && dec is Some && dec->Some_0.0 >= 2
                        && dec->Some_0.1 == final(self).buf.pos as int) || (f
                        == ParseFault::MalformedVarint && *final(self) == *old(self)
                        && uvarint_bad(
                        old(self).buf.data@,
                        old(self).buf.pos as int,
                        old(self).buf.data@.len() as int,
                    ))
                }),
                Err(MessageReadError::Incomplete) => *final(self) == *old(self) && uvarint_at(
                    old(self).buf.data@,
                    old(self).buf.pos as int,
                    old(self).buf.data@.len() as int,
                ) is None && !uvarint_bad(
                    old(self).buf.data@,
                    old(self).buf.pos as int,
                    old(self).buf.data@.len() as int,
                ),
            },
    {
        match self.read_uint() {
            Ok(0) => Ok(false),
            Ok(1) => Ok(true),
            Ok(_) => Err(MessageReadError::Parse(ParseFault::IntegerOverflow)),
            Err(e) => Err(e),
        }
    }

    /// Read a float as its IEEE-754 bit pattern: the varint's bytes
    /// reversed. The caller turns the bits into its host float.
    pub fn read_float(&mut self) -> (r: Result<u64, MessageReadError>)
        requires
            old(self).buf.wf(),
        ensures
            final(self).buf.wf(),
            final(self).buf.data == old(self).buf.data,
            match r {
                Ok(bits) => ({
                    let dec = uvarint_at(
                        old(self).buf.data@,
                        old(self).buf.pos as int,
                        old(self).buf.data@.len() as int,
                    );
                    dec is Some && bits == swap64(dec->Some_0.0) && dec->Some_0.1 == final(self).buf.pos as int
                }),
                Err(MessageReadError::Incomplete) => *final(self) == *old(self) && uvarint_at(
                    old(self).buf.data@,
                    old(self).buf.pos as int,
                    old(self).buf.data@.len() as int,
                ) is None && !uvarint_bad(
                    old(self).buf.data@,
                    old(self).buf.pos as int,
                    old(self).buf.data@.len() as int,
                ),
                Err(MessageReadError::Parse(f)) => f == ParseFault::MalformedVarint && *final(self)
                    == *old(self) && uvarint_bad(
                    old(self).buf.data@,
                    old(self).buf.pos as int,
                    old(self).buf.data@.len() as int,
                ),
            },
    {
        match self.read_uint() {
            Ok(v) => Ok(swap_bytes64(v)),
            Err(e) => Err(e),
        }
    }

    /// Read a byte-string length and check the payload it announces is
    /// actually present; the cursor stops right before the bytes.
    pub fn read_bytes_len(&mut self) -> (r: Result<usize, MessageReadError>)
        requires
            old(self).buf.wf(),
        ensures
            final(self).buf.wf(),
            final(self).buf.data == old(self).buf.data,
            final(self).buf.pos >= old(self).buf.pos,
            match r {
                Ok(n) => ({
                    let dec = uvarint_at(
                        old(self).buf.data@,
                        old(self).buf.pos as int,
                        old(self).buf.data@.len() as int,
                    );
                    dec is Some && dec->Some_0.0 == n as u64 && dec->Some_0.1 == final(self).buf.pos as int && final(self).buf.pos + n <= final(self).buf.data@.len()
                }),
                Err(MessageReadError::Incomplete) => ({
                    let dec = uvarint_at(
                        old(self).buf.data@,
                        old(self).buf.pos as int,
                        old(self).buf.data@.len() as int,
                    );
                    (dec is None && !uvarint_bad(
                        old(self).buf.data@,
                        old(self).buf.pos as int,
                        old(self).buf.data@.len() as int,
                    ) && *final(self) == *old(self)) || (dec matches Some((n, p)) && n > old(
                        self,
                    ).buf.data@.len() - p && final(self).buf.pos == p)
                }),
                Err(MessageReadError::Parse(f)) => f == ParseFault::MalformedVarint && *final(self)
                    == *old(self) && uvarint_bad(
                    old(self).buf.data@,
                    old(self).buf.pos as int,
                    old(self).buf.data@.len() as int,
                ),
            },
    {
        let len = match self.read_uint() {
            Ok(v) => v,
            Err(e) => {
                return Err(e);
            },
        };
        let rem = self.buf.data.len() - self.buf.pos;
        if (rem as u64) < len {
            return Err(MessageReadError::Incomplete);
        }
        Ok(len as usize)
    }

    /// Read a length-prefixed byte string whole, copied out.
    pub fn read_bytes(&mut self) -> (r: Result<Vec<u8>, MessageReadError>)
        requires
            old(self).buf.wf(),
        ensures
            final(self).buf.wf(),
            final(self).buf.data == old(self).buf.data,
            final(self).buf.pos >= old(self).buf.pos,
            r is Ok ==> old(self).buf.pos < final(self).buf.pos,
            match r {
                Ok(b) => ({
                    let dec = uvarint_at(
                        old(self).buf.data@,
                        old(self).buf.pos as int,
                        old(self).buf.data@.len() as int,
                    );
                    dec is Some && dec->Some_0.0 == b@.len() && final(self).buf.pos as int
                        == dec->Some_0.1 + b@.len() && b@ == old(self).buf.data@.subrange(
                        dec->Some_0.1,
                        dec->Some_0.1 + b@.len(),
                    )
                }),
                Err(MessageReadError::Incomplete) => ({
                    let dec = uvarint_at(
                        old(self).buf.data@,
                        old(self).buf.pos as int,
                        old(self).buf.data@.len() as int,
                    );
                    (dec is None && !uvarint_bad(
                        old(self).buf.data@,
                        old(self).buf.pos as int,
                        old(self).buf.data@.len() as int,
                    ) && *final(self) == *old(self)) || (dec matches Some((n, p)) && n > old(
                        self,
                    ).buf.data@.len() - p && final(self).buf.pos == p)
                }),
                Err(MessageReadError::Parse(f)) => f == ParseFault::MalformedVarint && *final(self)
                    == *old(self) && uvarint_bad(
                    old(self).buf.data@,
                    old(self).buf.pos as int,
                    old(self).buf.data@.len() as int,
                ),
            },
    {
        let n = match self.read_bytes_len() {
            Ok(n) => n,
            Err(e) => {
                return Err(e);
            },
        };
        let start = self.buf.pos;
        let total = self.buf.data.len();
        assert(start + n <= total);
        let bytes = copy_range(&self.buf.data, start, start + n);
        self.buf.pos = start + n;
        Ok(bytes)
    }
}

impl Message<Vec<u8>> {
    /// Append `n` as an unsigned varint.
    pub fn write_uint(&mut self, n: u64)
        ensures
            final(self).buf@ == old(self).buf@ + uvarint(n),
    {
        write_uvarint(&mut self.buf, n);
    }

    /// Append `n` as a signed varint.
    pub fn write_int(&mut self, n: i64)
        ensures
            final(self).buf@ == old(self).buf@ + ivarint(n),
    {
        write_ivarint(&mut self.buf, n);
    }

    /// Append a boolean as the uint 0 or 1.
    pub fn write_bool(&mut self, b: bool)
        ensures
            final(self).buf@ == old(self).buf@ + uvarint(
                if b {
                    1u64
                } else {
                    0u64
                },
            ),
    {
        if b {
            self.write_uint(1);
        } else {
            self.write_uint(0);
        }
    }

    /// Append a float, handed over as its IEEE-754 bit pattern: the
    /// varint of the bits reversed.
    pub fn write_float(&mut self, bits: u64)
        ensures
            final(self).buf@ == old(self).buf@ + uvarint(swap64(bits)),
    {
        let swapped = swap_bytes64(bits);
        self.write_uint(swapped);
    }

    /// Append a length-prefixed byte string.
    pub fn write_bytes(&mut self, bytes: &Vec<u8>)
        ensures
            final(self).buf@ == old(self).buf@ + uvarint(bytes@.len() as u64) + bytes@,
    {
        self.write_uint(bytes.len() as u64);
        let mut i: usize = 0;
        while i < bytes.len()
            invariant
                i <= bytes@.len(),
                self.buf@ == old(self).buf@ + uvarint(bytes@.len() as u64) + bytes@.subrange(
                    0,
                    i as int,
                ),
        decreases bytes@.len() - i,
    {
            self.buf.push(bytes[i]);
            proof {
                assert(old(self).buf@ + uvarint(bytes@.len() as u64) + bytes@.subrange(
                    0,
                    i + 1 as int,
                ) =~= (old(self).buf@ + uvarint(bytes@.len() as u64) + bytes@.subrange(
                    0,
                    i as int,
                )).push(bytes@[i as int]));
            }
            i = i + 1;
        }
        proof {
            assert(bytes@.subrange(0, bytes@.len() as int) =~= bytes@);
        }
    }
}

} // verus!
