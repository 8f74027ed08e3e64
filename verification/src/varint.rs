use vstd::arithmetic::div_mod::lemma_fundamental_div_mod;
use vstd::prelude::*;

use crate::error::{MessageReadError, ParseFault};

verus! {

// ---------------------------------------------------------------------------
// The mathematical shape of the gob varint: a value below 128 is one
// byte; anything larger is a header byte `!(L-1)` followed by the L
// big-endian bytes of the value, L minimal.
// ---------------------------------------------------------------------------
/// 256 to the power `e`.
pub open spec fn pow256(e: nat) -> nat
    decreases e,
{
    if e == 0 {
        1
    } else {
        256 * pow256((e - 1) as nat)
    }
}

/// The unsigned integer spelled by big-endian digits `s`.
pub open spec fn be_val(s: Seq<u8>) -> nat
    decreases s.len(),
{
    if s.len() == 0 {
        0
    } else {
        be_val(s.drop_last()) * 256 + s.last() as nat
    }
}

/// The `len` big-endian bytes of `n` (low digits at the tail).
pub open spec fn be_bytes(n: nat, len: nat) -> Seq<u8>
    decreases len,
{
    if len == 0 {
        Seq::empty()
    } else {
        be_bytes(n / 256, (len - 1) as nat).push((n % 256) as u8)
    }
}

/// The fewest big-endian bytes that can hold `n`.
pub open spec fn min_be_len(n: nat) -> nat
    decreases n,
{
    if n < 256 {
        1
    } else {
        1 + min_be_len(n / 256)
    }
}

/// The wire bytes of `n` as an unsigned varint.
pub open spec fn uvarint(n: u64) -> Seq<u8> {
    if n < 128 {
        seq![n as u8]
    } else {
        seq![(256 - min_be_len(n as nat)) as u8] + be_bytes(n as nat, min_be_len(n as nat))
    }
}

/// The zig-zag image of a signed value: sign in the low bit, the
/// magnitude (complemented when negative) above it.
pub open spec fn zigzag(n: i64) -> u64 {
    if n < 0 {
        ((!(n as u64)) << 1) | 1
    } else {
        (n as u64) << 1
    }
}

/// The inverse of `zigzag`.
pub open spec fn unzigzag(u: u64) -> i64 {
    if u & 1 == 0 {
        (u >> 1) as i64
    } else {
        !((u >> 1) as i64)
    }
}

/// The wire bytes of `n` as a signed varint.
pub open spec fn ivarint(n: i64) -> Seq<u8> {
    uvarint(zigzag(n))
}

// ---------------------------------------------------------------------------
// Decoding, as a function of the bytes between `pos` and `end`.
// ---------------------------------------------------------------------------
/// True when the byte at `pos` is a varint header announcing a width
/// over eight bytes: no u64 lives there, however many bytes follow.
pub open spec fn uvarint_bad(s: Seq<u8>, pos: int, end: int) -> bool {
    &&& 0 <= pos < end <= s.len()
    &&& s[pos] >= 128
    &&& 256 - (s[pos] as int) > 8
}

/// The value and end position of the unsigned varint at `pos`, or
/// `None` when the bytes before `end` hold no complete well-formed one.
pub open spec fn uvarint_at(s: Seq<u8>, pos: int, end: int) -> Option<(u64, int)> {
    if !(0 <= pos < end <= s.len()) {
        None
    } else {
        let b = s[pos];
        if b < 128 {
            Some((b as u64, pos + 1))
        } else {
            let l = 256 - (b as int);
            if l > 8 || pos + 1 + l > end {
                None
            } else {
                Some((be_val(s.subrange(pos + 1, pos + 1 + l)) as u64, pos + 1 + l))
            }
        }
    }
}

/// The value and end position of the signed varint at `pos`.
pub open spec fn ivarint_at(s: Seq<u8>, pos: int, end: int) -> Option<(i64, int)> {
    match uvarint_at(s, pos, end) {
        None => None,
        Some((u, p)) => Some((unzigzag(u), p)),
    }
}

// ---------------------------------------------------------------------------
// Arithmetic facts about the digit model.
// ---------------------------------------------------------------------------
pub proof fn lemma_pow256_pos(e: nat)
    ensures
        pow256(e) >= 1,
    decreases e,
{
    if e > 0 {
        lemma_pow256_pos((e - 1) as nat);
    }
}

/// Dividing by 256 moves one digit down: `n < 256 * m ==> n / 256 < m`.
proof fn lemma_div256_lt(n: nat, m: nat)
    requires
        n < 256 * m,
    ensures
        n / 256 < m,
{
    lemma_fundamental_div_mod(n as int, 256);
    if n / 256 >= m {
        assert(256 * (n as int / 256) >= 256 * m) by (nonlinear_arith)
            requires
                n as int / 256 >= m,
        ;
    }
}

/// `min_be_len(n)` bytes are enough for `n`.
pub proof fn lemma_min_be_len_fits(n: nat)
    ensures
        n < pow256(min_be_len(n)),
    decreases n,
{
    if n < 256 {
        assert(pow256(1) == 256) by {
            reveal_with_fuel(pow256, 2);
        }
    } else {
        lemma_min_be_len_fits(n / 256);
        lemma_fundamental_div_mod(n as int, 256);
        assert(n as int == 256 * (n as int / 256) + n as int % 256);
        assert(256 * ((n / 256) as int) < 256 * pow256(min_be_len(n / 256))) by (nonlinear_arith)
            requires
                (n / 256) < pow256(min_be_len(n / 256)),
        ;
        assert(n < 256 * pow256(min_be_len(n / 256)) || n as int % 256 >= 256);
    }
}

/// No fewer bytes would do: `min_be_len(n)` is minimal.
pub proof fn lemma_min_be_len_minimal(n: nat, k: nat)
    requires
        k >= 1,
        n < pow256(k),
    ensures
        min_be_len(n) <= k,
    decreases k,
{
    if n >= 256 {
        assert(k >= 2) by {
            reveal_with_fuel(pow256, 2);
            assert(pow256(1) == 256);
        }
        assert(pow256(k) == 256 * pow256((k - 1) as nat));
        lemma_div256_lt(n, pow256((k - 1) as nat));
        lemma_min_be_len_minimal(n / 256, (k - 1) as nat);
    }
}

/// Every u64 fits in eight big-endian bytes.
pub proof fn lemma_min_be_len_u64(n: u64)
    ensures
        1 <= min_be_len(n as nat) <= 8,
{
    assert(pow256(8) == 0x1_0000_0000_0000_0000) by {
        reveal_with_fuel(pow256, 9);
    }
    lemma_min_be_len_minimal(n as nat, 8);
}

pub proof fn lemma_be_bytes_len(n: nat, len: nat)
    ensures
        be_bytes(n, len).len() == len,
    decreases len,
{
    if len > 0 {
        lemma_be_bytes_len(n / 256, (len - 1) as nat);
    }
}

/// Reading back the big-endian bytes of `n` yields `n`.
pub proof fn lemma_be_val_be_bytes(n: nat, len: nat)
    requires
        n < pow256(len),
    ensures
        be_val(be_bytes(n, len)) == n,
    decreases len,
{
    if len == 0 {
        assert(n == 0);
    } else {
        let digits = be_bytes(n / 256, (len - 1) as nat);
        let whole = digits.push((n % 256) as u8);
        lemma_be_bytes_len(n / 256, (len - 1) as nat);
        assert(whole.drop_last() =~= digits);
        assert(whole.last() == (n % 256) as u8);
        assert(pow256(len) == 256 * pow256((len - 1) as nat));
        lemma_div256_lt(n, pow256((len - 1) as nat));
        lemma_be_val_be_bytes(n / 256, (len - 1) as nat);
        lemma_fundamental_div_mod(n as int, 256);
        assert(be_val(whole) == (n / 256) * 256 + n % 256);
        assert((n / 256) * 256 + n % 256 == n) by (nonlinear_arith)
            requires
                n as int == 256 * (n as int / 256) + n as int % 256,
        ;
    }
}

/// A varint is decoded from its own bytes alone: any tail may follow.
pub proof fn lemma_uvarint_round_trip(n: u64, tail: Seq<u8>)
    ensures
        uvarint(n).len() >= 1,
        uvarint_at(uvarint(n) + tail, 0, (uvarint(n) + tail).len() as int) == Some(
            (n, uvarint(n).len() as int),
        ),
{
    let e = uvarint(n);
    let s = e + tail;
    if n < 128 {
        assert(s[0] == n as u8);
    } else {
        let l = min_be_len(n as nat);
        lemma_min_be_len_u64(n);
        assert(s[0] == (256 - l) as u8);
        assert(s[0] >= 128 && 256 - (s[0] as int) == l);
        lemma_be_bytes_len(n as nat, l);
        assert(e.len() == 1 + l);
        assert(s.subrange(1, 1 + l as int) =~= be_bytes(n as nat, l));
        lemma_min_be_len_fits(n as nat);
        lemma_be_val_be_bytes(n as nat, l);
    }
}

/// One byte below 128, a header plus the minimal big-endian width above.
pub proof fn lemma_uvarint_minimal(n: u64)
    ensures
        n < 128 ==> uvarint(n).len() == 1,
        n >= 128 ==> uvarint(n).len() == 1 + min_be_len(n as nat),
        (n as nat) < pow256(min_be_len(n as nat)),
        forall|k: nat| 1 <= k && (n as nat) < pow256(k) ==> min_be_len(n as nat) <= k,
{
    lemma_min_be_len_fits(n as nat);
    if n >= 128 {
        lemma_be_bytes_len(n as nat, min_be_len(n as nat));
    }
    assert forall|k: nat| 1 <= k && (n as nat) < pow256(k) implies min_be_len(n as nat) <= k by {
        lemma_min_be_len_minimal(n as nat, k);
    }
}

/// A decoded varint is a fact about its own bytes alone: any buffer
/// that agrees on them decodes the same value, whatever lies beyond.
pub proof fn lemma_uvarint_at_frame(s1: Seq<u8>, s2: Seq<u8>, pos: int, end1: int, end2: int)
    requires
        uvarint_at(s1, pos, end1) is Some,
        uvarint_at(s1, pos, end1)->Some_0.1 <= end2 <= s2.len(),
        forall|i: int| pos <= i < uvarint_at(s1, pos, end1)->Some_0.1 ==> s1[i] == s2[i],
    ensures
        uvarint_at(s2, pos, end2) == uvarint_at(s1, pos, end1),
{
    let b = s1[pos];
    assert(s2[pos] == b);
    if b >= 128 {
        let l = 256 - (b as int);
        assert(s1.subrange(pos + 1, pos + 1 + l) =~= s2.subrange(pos + 1, pos + 1 + l));
    }
}

/// Reading at an offset is reading the suffix from its start.
pub proof fn lemma_uvarint_at_shift(s: Seq<u8>, pos: int, end: int)
    requires
        0 <= pos <= end <= s.len(),
    ensures
        uvarint_at(s, pos, end) == (match uvarint_at(s.subrange(pos, end), 0, end - pos) {
            None => None::<(u64, int)>,
            Some((v, p)) => Some((v, p + pos)),
        }),
{
    let sub = s.subrange(pos, end);
    if pos < end {
        let b = s[pos];
        assert(sub[0] == b);
        if b >= 128 {
            let l = 256 - (b as int);
            if l <= 8 && pos + 1 + l <= end {
                assert(s.subrange(pos + 1, pos + 1 + l) =~= sub.subrange(1, 1 + l));
            }
        }
    }
}

/// The signed reading of the two framing lemmas above.
pub proof fn lemma_ivarint_at_frame(s1: Seq<u8>, s2: Seq<u8>, pos: int, end1: int, end2: int)
    requires
        ivarint_at(s1, pos, end1) is Some,
        ivarint_at(s1, pos, end1)->Some_0.1 <= end2 <= s2.len(),
        forall|i: int| pos <= i < ivarint_at(s1, pos, end1)->Some_0.1 ==> s1[i] == s2[i],
    ensures
        ivarint_at(s2, pos, end2) == ivarint_at(s1, pos, end1),
{
    lemma_uvarint_at_frame(s1, s2, pos, end1, end2);
}

/// Zig-zag loses nothing: decoding undoes encoding on every i64.
pub proof fn lemma_zigzag_round_trip(n: i64)
    ensures
        unzigzag(zigzag(n)) == n,
{
    assert(unzigzag(zigzag(n)) == n) by (bit_vector);
}

/// And encoding undoes decoding on every u64: the codec is a bijection.
pub proof fn lemma_zigzag_onto(u: u64)
    ensures
        zigzag(unzigzag(u)) == u,
{
    assert(zigzag(unzigzag(u)) == u) by (bit_vector);
}

/// A signed varint too is decoded from its own bytes alone.
pub proof fn lemma_ivarint_round_trip(n: i64, tail: Seq<u8>)
    ensures
        ivarint(n).len() >= 1,
        ivarint_at(ivarint(n) + tail, 0, (ivarint(n) + tail).len() as int) == Some(
            (n, ivarint(n).len() as int),
        ),
{
    lemma_uvarint_round_trip(zigzag(n), tail);
    lemma_zigzag_round_trip(n);
}

// ---------------------------------------------------------------------------
// Executable readers and writers.
// ---------------------------------------------------------------------------
/// Relies on byteorder's `BigEndian::read_uint`: the `nbytes` bytes at
/// `start` are read as one big-endian unsigned integer.
#[verifier::external_body]
fn be_read_uint(s: &Vec<u8>, start: usize, nbytes: usize) -> (r: u64)
    requires
        1 <= nbytes <= 8,
        start + nbytes <= s.len(),
    ensures
        r as nat == be_val(s@.subrange(start as int, start as int + nbytes as int)),
{
    <byteorder::BigEndian as byteorder::ByteOrder>::read_uint(&s[start..start + nbytes], nbytes)
}

/// Relies on byteorder's `BigEndian::write_uint`: appends exactly the
/// `nbytes` big-endian bytes of `n`.
#[verifier::external_body]
fn be_write_uint(out: &mut Vec<u8>, n: u64, nbytes: usize)
    requires
        1 <= nbytes <= 8,
        (n as nat) < pow256(nbytes as nat),
    ensures
        final(out)@ == old(out)@ + be_bytes(n as nat, nbytes as nat),
{
    let mut scratch = [0u8; 8];
    <byteorder::BigEndian as byteorder::ByteOrder>::write_uint(&mut scratch[..nbytes], n, nbytes);
    out.extend_from_slice(&scratch[..nbytes]);
}

/// Read the unsigned varint that starts at `pos`, looking no further
/// than `end`. Reports exactly what the bytes allow: the decoded value
/// and its end, a malformed header, or too few bytes.
pub fn read_uvarint(s: &Vec<u8>, pos: usize, end: usize) -> (r: Result<
    (u64, usize),
    MessageReadError,
>)
    requires
        pos <= end <= s.len(),
    ensures
        match r {
            Ok((v, p)) => uvarint_at(s@, pos as int, end as int) == Some((v, p as int)) && pos < p
                <= end,
            Err(MessageReadError::Incomplete) => uvarint_at(s@, pos as int, end as int) is None
                && !uvarint_bad(s@, pos as int, end as int),
            Err(MessageReadError::Parse(f)) => f == ParseFault::MalformedVarint && uvarint_bad(
                s@,
                pos as int,
                end as int,
            ),
        },
{
    if pos >= end {
        return Err(MessageReadError::Incomplete);
    }
    let b = s[pos];
    if b < 128 {
        return Ok((b as u64, pos + 1));
    }
    let l: usize = 256 - (b as usize);
    if l > 8 {
        return Err(MessageReadError::Parse(ParseFault::MalformedVarint));
    }
    if end - (pos + 1) < l {
        return Err(MessageReadError::Incomplete);
    }
    let v = be_read_uint(s, pos + 1, l);
    proof {
        let digits = s@.subrange(pos + 1, pos + 1 + l);
        lemma_be_val_bound(digits);
        assert(pow256(digits.len()) <= pow256(8)) by {
            lemma_pow256_le(digits.len(), 8);
        }
        assert(pow256(8) == 0x1_0000_0000_0000_0000) by {
            reveal_with_fuel(pow256, 9);
        }
    }
    Ok((v, pos + 1 + l))
}

/// Big-endian digits never spell more than their width allows.
pub proof fn lemma_be_val_bound(s: Seq<u8>)
    ensures
        be_val(s) < pow256(s.len()),
    decreases s.len(),
{
    if s.len() == 0 {
    } else {
        lemma_be_val_bound(s.drop_last());
        assert(be_val(s.drop_last()) * 256 + 255 < 256 * pow256((s.len() - 1) as nat))
            by (nonlinear_arith)
            requires
                be_val(s.drop_last()) < pow256((s.len() - 1) as nat),
        ;
    }
}

pub proof fn lemma_pow256_le(a: nat, b: nat)
    requires
        a <= b,
    ensures
        pow256(a) <= pow256(b),
    decreases b,
{
    if a < b {
        lemma_pow256_le(a, (b - 1) as nat);
        lemma_pow256_pos((b - 1) as nat);
    }
}

/// Read the signed varint at `pos`: the unsigned one, zig-zag undone.
pub fn read_ivarint(s: &Vec<u8>, pos: usize, end: usize) -> (r: Result<
    (i64, usize),
    MessageReadError,
>)
    requires
        pos <= end <= s.len(),
    ensures
        match r {
            Ok((v, p)) => ivarint_at(s@, pos as int, end as int) == Some((v, p as int)) && pos < p
                <= end,
            Err(MessageReadError::Incomplete) => ivarint_at(s@, pos as int, end as int) is None
                && !uvarint_bad(s@, pos as int, end as int),
            Err(MessageReadError::Parse(f)) => f == ParseFault::MalformedVarint && uvarint_bad(
                s@,
                pos as int,
                end as int,
            ),
        },
{
    match read_uvarint(s, pos, end) {
        Err(e) => Err(e),
        Ok((u, p)) => {
            let sign = u & 1;
            let magnitude = (u >> 1) as i64;
            proof {
                assert(u >> 1 < 0x8000_0000_0000_0000) by (bit_vector);
            }
            if sign == 0 {
                Ok((magnitude, p))
            } else {
                Ok((!magnitude, p))
            }
        },
    }
}

/// Append the unsigned varint encoding of `n`: the minimal form, one
/// byte under 128 and a header plus minimal big-endian bytes above.
pub fn write_uvarint(out: &mut Vec<u8>, n: u64)
    ensures
        final(out)@ == old(out)@ + uvarint(n),
{
    if n < 128 {
        out.push(n as u8);
        assert(final(out)@ =~= old(out)@ + uvarint(n));
        return ;
    }
    proof {
        lemma_min_be_len_u64(n);
    }
    let mut l: usize = 1;
    let mut m: u64 = n;
    while m >= 256
        invariant
            1 <= l,
            min_be_len(n as nat) == min_be_len(m as nat) + l - 1,
            min_be_len(n as nat) <= 8,
        decreases m,
    {
        m = m / 256;
        l = l + 1;
    }
    proof {
        lemma_min_be_len_u64(n);
        assert(min_be_len(m as nat) == 1);
        assert(l == min_be_len(n as nat));
    }
    out.push((256 - l) as u8);
    proof {
        lemma_min_be_len_fits(n as nat);
    }
    be_write_uint(out, n, l);
    assert(final(out)@ =~= old(out)@ + uvarint(n));
}

/// Append the signed varint encoding of `n`.
pub fn write_ivarint(out: &mut Vec<u8>, n: i64)
    ensures
        final(out)@ == old(out)@ + ivarint(n),
{
    let u: u64;
    if n < 0 {
        u = ((!(n as u64)) << 1) | 1;
    } else {
        u = (n as u64) << 1;
    }
    write_uvarint(out, u);
}

// ---------------------------------------------------------------------------
// The byte-reversal that underlies the float encoding.
// ---------------------------------------------------------------------------
/// The eight bytes of `x`, reversed.
pub open spec fn swap64(x: u64) -> u64 {
    ((x & 0xff) << 56) | ((x & 0xff00) << 40) | ((x & 0xff_0000) << 24) | ((x & 0xff00_0000) << 8)
        | ((x >> 8) & 0xff00_0000) | ((x >> 24) & 0xff_0000) | ((x >> 40) & 0xff00) | (x >> 56)
}

/// Reverse the byte order of `x`.
pub fn swap_bytes64(x: u64) -> (r: u64)
    ensures
        r == swap64(x),
{
    ((x & 0xff) << 56) | ((x & 0xff00) << 40) | ((x & 0xff_0000) << 24) | ((x & 0xff00_0000) << 8)
        | ((x >> 8) & 0xff00_0000) | ((x >> 24) & 0xff_0000) | ((x >> 40) & 0xff00) | (x >> 56)
}

/// Reversing twice is the identity: the float codec loses no bit.
pub proof fn lemma_swap64_involutive(x: u64)
    ensures
        swap64(swap64(x)) == x,
{
    assert(swap64(swap64(x)) == x) by (bit_vector);
}

/// The float codec loses no bit pattern: writing a float's bits (bytes
/// reversed, then varint) and reading them back yields the same bits.
/// Stated over bit patterns, it covers every float, NaN payloads
/// included; the host conversion `to_bits`/`from_bits` sits outside.
pub proof fn lemma_float_round_trip(bits: u64, tail: Seq<u8>)
    ensures
        ({
            let enc = uvarint(swap64(bits));
            &&& uvarint_at(enc + tail, 0, (enc + tail).len() as int) == Some(
                (swap64(bits), enc.len() as int),
            )
            &&& swap64(swap64(bits)) == bits
        }),
{
    lemma_uvarint_round_trip(swap64(bits), tail);
    lemma_swap64_involutive(bits);
}

} // verus!
