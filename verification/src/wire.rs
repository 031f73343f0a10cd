//! The byte-level model of the wire format: little-endian integers and the
//! primitive readers that every section decoder is specified against.
//!
//! Each `spec_read_*` function is the mathematical counterpart of the
//! corresponding executable reader in [`crate::read_utils`]: it takes the
//! whole buffer and a position, and returns either the decoded value together
//! with the position after it, or the exact error the reader reports.

use vstd::prelude::*;

use crate::error::BsorError;
use vstd::utf8::decode_utf8;
use vstd::utf8::valid_utf8;

verus! {

// --- little-endian integers -------------------------------------------------

/// The `u32` read little-endian from a four-byte sequence.
pub open spec fn u32_from_le(b: Seq<u8>) -> u32
    recommends
        b.len() == 4,
{
    (b[0] as u32) | ((b[1] as u32) << 8) | ((b[2] as u32) << 16) | ((b[3] as u32) << 24)
}

/// The four-byte little-endian encoding of a `u32`.
pub open spec fn u32_to_le(v: u32) -> Seq<u8> {
    seq![
        (v & 0xff) as u8,
        ((v >> 8) & 0xff) as u8,
        ((v >> 16) & 0xff) as u8,
        ((v >> 24) & 0xff) as u8,
    ]
}

/// The `u64` read little-endian from an eight-byte sequence.
pub open spec fn u64_from_le(b: Seq<u8>) -> u64
    recommends
        b.len() == 8,
{
    (b[0] as u64) | ((b[1] as u64) << 8) | ((b[2] as u64) << 16) | ((b[3] as u64) << 24) | ((b[4]
        as u64) << 32) | ((b[5] as u64) << 40) | ((b[6] as u64) << 48) | ((b[7] as u64) << 56)
}

/// The eight-byte little-endian encoding of a `u64`.
pub open spec fn u64_to_le(v: u64) -> Seq<u8> {
    seq![
        (v & 0xff) as u8,
        ((v >> 8) & 0xff) as u8,
        ((v >> 16) & 0xff) as u8,
        ((v >> 24) & 0xff) as u8,
        ((v >> 32) & 0xff) as u8,
        ((v >> 40) & 0xff) as u8,
        ((v >> 48) & 0xff) as u8,
        ((v >> 56) & 0xff) as u8,
    ]
}

/// The `i32` whose two's-complement bit pattern is read little-endian from a
/// four-byte sequence.
pub open spec fn i32_from_le(b: Seq<u8>) -> i32
    recommends
        b.len() == 4,
{
    u32_as_i32(u32_from_le(b))
}

/// The four-byte little-endian encoding of an `i32` (two's complement).
pub open spec fn i32_to_le(v: i32) -> Seq<u8> {
    u32_to_le(i32_as_u32(v))
}

/// The `i32` with the same 32-bit two's-complement pattern as the given `u32`.
pub open spec fn u32_as_i32(v: u32) -> i32 {
    if v >= 0x8000_0000 {
        (v - 0x1_0000_0000) as i32
    } else {
        v as i32
    }
}

/// The `u32` with the same 32-bit two's-complement pattern as the given `i32`.
pub open spec fn i32_as_u32(v: i32) -> u32 {
    if v < 0 {
        (v + 0x1_0000_0000) as u32
    } else {
        v as u32
    }
}

pub proof fn lemma_u32_i32_identity(v: u32)
    ensures
        i32_as_u32(u32_as_i32(v)) == v,
{
}

pub proof fn lemma_i32_u32_identity(v: i32)
    ensures
        u32_as_i32(i32_as_u32(v)) == v,
{
}

pub proof fn lemma_u32_le_identity(v: u32)
    ensures
        u32_to_le(v).len() == 4,
        u32_from_le(u32_to_le(v)) == v,
{
    assert(v & 0xff < 256 && (v >> 8) & 0xff < 256 && (v >> 16) & 0xff < 256 && (v >> 24) & 0xff
        < 256) by (bit_vector);
    assert((((v & 0xff) as u8) as u32) | ((((v >> 8) & 0xff) as u8) as u32) << 8 | ((((v >> 16)
        & 0xff) as u8) as u32) << 16 | ((((v >> 24) & 0xff) as u8) as u32) << 24 == v)
        by (bit_vector);
}

pub proof fn lemma_le_u32_identity(b: Seq<u8>)
    requires
        b.len() == 4,
    ensures
        u32_to_le(u32_from_le(b)) == b,
{
    let b0 = b[0];
    let b1 = b[1];
    let b2 = b[2];
    let b3 = b[3];
    let v = u32_from_le(b);
    assert({
        let w = (b0 as u32) | ((b1 as u32) << 8) | ((b2 as u32) << 16) | ((b3 as u32) << 24);
        (w & 0xff) as u8 == b0 && ((w >> 8) & 0xff) as u8 == b1 && ((w >> 16) & 0xff) as u8 == b2
            && ((w >> 24) & 0xff) as u8 == b3
    }) by (bit_vector);
    assert(u32_to_le(v) =~= b);
}

pub proof fn lemma_u64_le_identity(v: u64)
    ensures
        u64_to_le(v).len() == 8,
        u64_from_le(u64_to_le(v)) == v,
{
    assert(v & 0xff < 256 && (v >> 8) & 0xff < 256 && (v >> 16) & 0xff < 256 && (v >> 24) & 0xff
        < 256 && (v >> 32) & 0xff < 256 && (v >> 40) & 0xff < 256 && (v >> 48) & 0xff < 256 && (v
        >> 56) & 0xff < 256) by (bit_vector);
    assert((((v & 0xff) as u8) as u64) | ((((v >> 8) & 0xff) as u8) as u64) << 8 | ((((v >> 16)
        & 0xff) as u8) as u64) << 16 | ((((v >> 24) & 0xff) as u8) as u64) << 24 | ((((v >> 32)
        & 0xff) as u8) as u64) << 32 | ((((v >> 40) & 0xff) as u8) as u64) << 40 | ((((v >> 48)
        & 0xff) as u8) as u64) << 48 | ((((v >> 56) & 0xff) as u8) as u64) << 56 == v)
        by (bit_vector);
}

pub proof fn lemma_le_u64_identity(b: Seq<u8>)
    requires
        b.len() == 8,
    ensures
        u64_to_le(u64_from_le(b)) == b,
{
    let b0 = b[0];
    let b1 = b[1];
    let b2 = b[2];
    let b3 = b[3];
    let b4 = b[4];
    let b5 = b[5];
    let b6 = b[6];
    let b7 = b[7];
    assert({
        let w = (b0 as u64) | ((b1 as u64) << 8) | ((b2 as u64) << 16) | ((b3 as u64) << 24) | ((b4
            as u64) << 32) | ((b5 as u64) << 40) | ((b6 as u64) << 48) | ((b7 as u64) << 56);
        (w & 0xff) as u8 == b0 && ((w >> 8) & 0xff) as u8 == b1 && ((w >> 16) & 0xff) as u8 == b2
            && ((w >> 24) & 0xff) as u8 == b3 && ((w >> 32) & 0xff) as u8 == b4 && ((w >> 40)
            & 0xff) as u8 == b5 && ((w >> 48) & 0xff) as u8 == b6 && ((w >> 56) & 0xff) as u8 == b7
    }) by (bit_vector);
    assert(u64_to_le(u64_from_le(b)) =~= b);
}

pub proof fn lemma_i32_le_identity(v: i32)
    ensures
        i32_to_le(v).len() == 4,
        i32_from_le(i32_to_le(v)) == v,
{
    lemma_u32_le_identity(i32_as_u32(v));
    lemma_i32_u32_identity(v);
}

pub proof fn lemma_le_i32_identity(b: Seq<u8>)
    requires
        b.len() == 4,
    ensures
        i32_to_le(i32_from_le(b)) == b,
{
    lemma_u32_i32_identity(u32_from_le(b));
    lemma_le_u32_identity(b);
}

/// Two equal concatenations with equally long left parts have equal parts.
pub proof fn lemma_seq_parts2(x1: Seq<u8>, x2: Seq<u8>, y1: Seq<u8>, y2: Seq<u8>)
    requires
        x1 + x2 == y1 + y2,
        x1.len() == y1.len(),
    ensures
        x1 == y1,
        x2 == y2,
{
    broadcast use vstd::seq::group_seq_axioms;

    assert(x1 =~= y1) by {
        assert forall|i: int| 0 <= i < x1.len() implies x1[i] == y1[i] by {
            vstd::seq::axiom_seq_add_index1(x1, x2, i);
            vstd::seq::axiom_seq_add_index1(y1, y2, i);
            assert((x1 + x2)[i] == (y1 + y2)[i]);
        }
    }
    vstd::seq::axiom_seq_add_len(x1, x2);
    vstd::seq::axiom_seq_add_len(y1, y2);
    assert(x2.len() == y2.len());
    assert(x2 =~= y2) by {
        assert forall|i: int| 0 <= i < x2.len() implies x2[i] == y2[i] by {
            vstd::seq::axiom_seq_add_index2(x1, x2, x1.len() + i);
            vstd::seq::axiom_seq_add_index2(y1, y2, y1.len() + i);
            assert((x1 + x2)[x1.len() + i] == (y1 + y2)[y1.len() + i]);
        }
    }
}

/// A subrange is the concatenation of its two halves.
pub proof fn lemma_subrange_split(b: Seq<u8>, pos: int, mid: int, end: int)
    requires
        0 <= pos <= mid <= end <= b.len(),
    ensures
        b.subrange(pos, end) == b.subrange(pos, mid) + b.subrange(mid, end),
{
    broadcast use vstd::seq::group_seq_axioms;

    assert(b.subrange(pos, end) =~= b.subrange(pos, mid) + b.subrange(mid, end));
}

/// A subrange known to equal a concatenation splits into its two parts.
pub proof fn lemma_seq_unconcat(b: Seq<u8>, pos: int, x: Seq<u8>, y: Seq<u8>)
    requires
        0 <= pos,
        pos + x.len() + y.len() <= b.len(),
        b.subrange(pos, pos + x.len() + y.len()) == x + y,
    ensures
        b.subrange(pos, pos + x.len()) == x,
        b.subrange(pos + x.len(), pos + x.len() + y.len()) == y,
{
    broadcast use vstd::seq::group_seq_axioms;

    lemma_subrange_split(b, pos, pos + x.len(), pos + x.len() + y.len());
    lemma_seq_parts2(
        b.subrange(pos, pos + x.len()),
        b.subrange(pos + x.len(), pos + x.len() + y.len()),
        x,
        y,
    );
}

/// Reinterprets a `u32` as the `i32` with the same bit pattern.
pub fn to_signed(v: u32) -> (r: i32)
    ensures
        r == u32_as_i32(v),
{
    if v >= 0x8000_0000 {
        -((0xffff_ffffu32 - v) as i32) - 1
    } else {
        v as i32
    }
}

/// Reinterprets an `i32` as the `u32` with the same bit pattern.
pub fn to_unsigned(v: i32) -> (r: u32)
    ensures
        r == i32_as_u32(v),
{
    if v < 0 {
        0xffff_ffffu32 - ((-(v + 1)) as u32)
    } else {
        v as u32
    }
}

// --- packed-id arithmetic ---------------------------------------------------
//
// Packed identifier fields decompose by place values with the semantics of
// Rust's `/`, `%` and `as u8` on `i32`: division truncates toward zero, the
// remainder takes the dividend's sign, and the cast wraps to eight bits.

/// Truncating division by a positive divisor (rounds toward zero).
pub open spec fn tdiv(a: int, b: int) -> int
    recommends
        b > 0,
{
    if a >= 0 {
        a / b
    } else {
        -((-a) / b)
    }
}

/// The remainder of truncating division; it takes the dividend's sign.
pub open spec fn tmod(a: int, b: int) -> int
    recommends
        b > 0,
{
    if a >= 0 {
        a % b
    } else {
        -((-a) % b)
    }
}

/// The low eight bits of an integer, as Rust's wrapping `as u8` cast.
pub open spec fn wrap8(x: int) -> u8 {
    (x % 256) as u8
}

/// Truncating division of an `i32` by a positive divisor.
pub fn tdiv_i32(a: i32, b: i32) -> (r: i32)
    requires
        b > 0,
    ensures
        r as int == tdiv(a as int, b as int),
{
    if a >= 0 {
        let q: u32 = (a as u32) / (b as u32);
        q as i32
    } else {
        let m: u32 = if a == i32::MIN {
            0x8000_0000u32
        } else {
            (-a) as u32
        };
        let q: u32 = m / (b as u32);
        if q >= 0x8000_0000u32 {
            proof {
                assert(m / (b as u32) <= m) by (nonlinear_arith)
                    requires
                        b as u32 >= 1,
                        m >= 0,
                ;
            }
            i32::MIN
        } else {
            -(q as i32)
        }
    }
}

/// The remainder of truncating division of an `i32` by a positive divisor.
pub fn tmod_i32(a: i32, b: i32) -> (r: i32)
    requires
        b > 0,
    ensures
        r as int == tmod(a as int, b as int),
{
    if a >= 0 {
        let q: u32 = (a as u32) % (b as u32);
        q as i32
    } else {
        let m: u32 = if a == i32::MIN {
            0x8000_0000u32
        } else {
            (-a) as u32
        };
        let q: u32 = m % (b as u32);
        -(q as i32)
    }
}

/// The wrapping `as u8` cast of an `i32`.
pub fn wrap8_i32(x: i32) -> (r: u8)
    ensures
        r == wrap8(x as int),
{
    if x >= 0 {
        ((x as u32) % 256) as u8
    } else {
        let m: u32 = if x == i32::MIN {
            0x8000_0000u32
        } else {
            (-x) as u32
        };
        let rm: u32 = m % 256;
        if rm == 0 {
            0
        } else {
            (256 - rm) as u8
        }
    }
}

// --- primitive readers ------------------------------------------------------

/// Reads the single byte at `pos`.
pub open spec fn spec_read_byte(b: Seq<u8>, pos: int) -> Result<(u8, int), BsorError> {
    if 0 <= pos && pos + 1 <= b.len() {
        Ok((b[pos], pos + 1))
    } else {
        Err(BsorError::Io)
    }
}

/// Reads one byte and maps it to a boolean; only the value `1` means true.
pub open spec fn spec_read_bool(b: Seq<u8>, pos: int) -> Result<(bool, int), BsorError> {
    match spec_read_byte(b, pos) {
        Ok((v, p)) => Ok(((v == 1), p)),
        Err(e) => Err(e),
    }
}

/// Reads a little-endian `u32` (also the raw pattern of a 32-bit float).
pub open spec fn spec_read_u32(b: Seq<u8>, pos: int) -> Result<(u32, int), BsorError> {
    if 0 <= pos && pos + 4 <= b.len() {
        Ok((u32_from_le(b.subrange(pos, pos + 4)), pos + 4))
    } else {
        Err(BsorError::Io)
    }
}

/// Reads a little-endian `i32`.
pub open spec fn spec_read_int(b: Seq<u8>, pos: int) -> Result<(i32, int), BsorError> {
    if 0 <= pos && pos + 4 <= b.len() {
        Ok((i32_from_le(b.subrange(pos, pos + 4)), pos + 4))
    } else {
        Err(BsorError::Io)
    }
}

/// Reads a little-endian `u64`.
pub open spec fn spec_read_long(b: Seq<u8>, pos: int) -> Result<(u64, int), BsorError> {
    if 0 <= pos && pos + 8 <= b.len() {
        Ok((u64_from_le(b.subrange(pos, pos + 8)), pos + 8))
    } else {
        Err(BsorError::Io)
    }
}

/// Reads a length-prefixed UTF-8 string: an `i32` byte count, then that many
/// bytes decoded as UTF-8.  A negative count or too few bytes is a short
/// read; invalid UTF-8 is a decoding failure.
pub open spec fn spec_read_string(b: Seq<u8>, pos: int) -> Result<(Seq<char>, int), BsorError> {
    match spec_read_int(b, pos) {
        Err(e) => Err(e),
        Ok((len, p)) => if len < 0 || p + len > b.len() {
            Err(BsorError::Io)
        } else if !valid_utf8(b.subrange(p, p + len)) {
            Err(BsorError::Decoding)
        } else {
            Ok((decode_utf8(b.subrange(p, p + len)), p + len))
        },
    }
}

// --- primitive encoders -----------------------------------------------------

/// The byte a boolean is written as: `1` for true, `0` for false.
pub open spec fn bool_byte(v: bool) -> u8 {
    if v {
        1
    } else {
        0
    }
}

/// The wire form of a length-prefixed UTF-8 string.
pub open spec fn enc_str(s: Seq<char>) -> Seq<u8>
    recommends
        vstd::utf8::encode_utf8(s).len() <= i32::MAX,
{
    i32_to_le(vstd::utf8::encode_utf8(s).len() as i32) + vstd::utf8::encode_utf8(s)
}

/// Decoding the wire form of a string gives back its characters.
pub proof fn lemma_str_round_trip(b: Seq<u8>, pos: int, s: Seq<char>)
    requires
        vstd::utf8::encode_utf8(s).len() <= i32::MAX,
        0 <= pos,
        pos + enc_str(s).len() <= b.len(),
        b.subrange(pos, pos + enc_str(s).len()) == enc_str(s),
    ensures
        spec_read_string(b, pos) == Ok::<_, BsorError>((s, pos + enc_str(s).len())),
{
    broadcast use vstd::utf8::encode_utf8_valid_utf8, vstd::utf8::encode_utf8_decode_utf8;

    let eb = vstd::utf8::encode_utf8(s);
    let lenb = i32_to_le(eb.len() as i32);
    lemma_seq_unconcat(b, pos, lenb, eb);
    lemma_i32_le_identity(eb.len() as i32);
    assert(valid_utf8(eb));
    assert(decode_utf8(eb) == s);
}

} // verus!
