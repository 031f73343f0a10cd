//! Executable encoders for the wire primitives.
//!
//! Each encoder appends the exact byte sequence that the corresponding
//! specification in [`crate::wire`] describes, so a buffer built from these
//! functions is by construction a well-formed encoding.

use vstd::prelude::*;

use crate::wire::i32_to_le;
use crate::wire::to_unsigned;
use crate::wire::u32_to_le;
use crate::wire::u64_to_le;
use vstd::utf8::encode_utf8;

verus! {

/// Appends a single byte.
pub fn append_byte(out: &mut Vec<u8>, v: u8)
    ensures
        final(out)@ == old(out)@ + seq![v],
{
    out.push(v);
    proof {
        assert(out@ =~= old(out)@ + seq![v]);
    }
}

/// Appends a boolean as one byte, `1` for true and `0` for false.
pub fn append_bool(out: &mut Vec<u8>, v: bool)
    ensures
        final(out)@ == old(out)@ + seq![if v { 1u8 } else { 0u8 }],
{
    append_byte(out, if v { 1 } else { 0 });
}

/// Appends a `u32` little-endian; this is also how the raw bit pattern of a
/// 32-bit float field is written.
pub fn append_float(out: &mut Vec<u8>, v: u32)
    ensures
        final(out)@ == old(out)@ + u32_to_le(v),
{
    proof {
        assert(v & 0xff < 256 && (v >> 8) & 0xff < 256 && (v >> 16) & 0xff < 256 && (v >> 24)
            & 0xff < 256) by (bit_vector);
    }
    out.push((v & 0xff) as u8);
    out.push(((v >> 8) & 0xff) as u8);
    out.push(((v >> 16) & 0xff) as u8);
    out.push(((v >> 24) & 0xff) as u8);
    proof {
        assert(out@ =~= old(out)@ + u32_to_le(v));
    }
}

/// Appends an `i32` little-endian (two's complement).
pub fn append_int(out: &mut Vec<u8>, v: i32)
    ensures
        final(out)@ == old(out)@ + i32_to_le(v),
{
    append_float(out, to_unsigned(v));
}

/// Appends a `u64` little-endian.
pub fn append_long(out: &mut Vec<u8>, v: u64)
    ensures
        final(out)@ == old(out)@ + u64_to_le(v),
{
    proof {
        assert(v & 0xff < 256 && (v >> 8) & 0xff < 256 && (v >> 16) & 0xff < 256 && (v >> 24)
            & 0xff < 256 && (v >> 32) & 0xff < 256 && (v >> 40) & 0xff < 256 && (v >> 48) & 0xff
            < 256 && (v >> 56) & 0xff < 256) by (bit_vector);
    }
    out.push((v & 0xff) as u8);
    out.push(((v >> 8) & 0xff) as u8);
    out.push(((v >> 16) & 0xff) as u8);
    out.push(((v >> 24) & 0xff) as u8);
    out.push(((v >> 32) & 0xff) as u8);
    out.push(((v >> 40) & 0xff) as u8);
    out.push(((v >> 48) & 0xff) as u8);
    out.push(((v >> 56) & 0xff) as u8);
    proof {
        assert(out@ =~= old(out)@ + u64_to_le(v));
    }
}

/// Appends a length-prefixed UTF-8 string: the byte length as an `i32`, then
/// the string's bytes.
pub fn append_str(out: &mut Vec<u8>, s: &str)
    requires
        encode_utf8(s@).len() <= i32::MAX,
    ensures
        final(out)@ == old(out)@ + crate::wire::enc_str(s@),
{
    let len = s.len();
    append_int(out, len as i32);
    out.extend_from_slice(s.as_bytes());
    proof {
        assert(out@ =~= old(out)@ + crate::wire::enc_str(s@));
    }
}

} // verus!
