//! Executable readers for the wire primitives.
//!
//! Every reader takes the whole buffer and a cursor.  On success the cursor
//! moves past the bytes that were read; on failure the cursor is left where
//! it was and the reader reports the same error as its specification in
//! [`crate::wire`].  No reader ever panics.

use vstd::prelude::*;

use crate::error::BsorError;
use crate::wire::spec_read_bool;
use crate::wire::spec_read_byte;
use crate::wire::spec_read_int;
use crate::wire::spec_read_long;
use crate::wire::spec_read_string;
use crate::wire::spec_read_u32;
use crate::wire::to_signed;
use crate::wire::u32_from_le;
use crate::wire::u64_from_le;
use vstd::utf8::decode_utf8;
use vstd::utf8::valid_utf8;

verus! {

/// Reads one byte.
pub fn read_byte(bytes: &Vec<u8>, pos: &mut usize) -> (r: Result<u8, BsorError>)
    ensures
        match r {
            Ok(v) => spec_read_byte(bytes@, *old(pos) as int) == Ok::<_, BsorError>((
                v,
                *final(pos) as int,
            )),
            Err(e) => spec_read_byte(bytes@, *old(pos) as int) == Err::<(u8, int), _>(e) && *final(pos) == *old(pos),
        },
{
    if *pos < bytes.len() {
        let v = bytes[*pos];
        *pos = *pos + 1;
        Ok(v)
    } else {
        Err(BsorError::Io)
    }
}

/// Reads one byte as a boolean; only the value `1` means true.
pub fn read_bool(bytes: &Vec<u8>, pos: &mut usize) -> (r: Result<bool, BsorError>)
    ensures
        match r {
            Ok(v) => spec_read_bool(bytes@, *old(pos) as int) == Ok::<_, BsorError>((
                v,
                *final(pos) as int,
            )),
            Err(e) => spec_read_bool(bytes@, *old(pos) as int) == Err::<(bool, int), _>(e)
                && *final(pos) == *old(pos),
        },
{
    let b = read_byte(bytes, pos)?;
    Ok(b == 1)
}

/// Reads a little-endian `u32`; this is also how the raw bit pattern of a
/// 32-bit float field is read.
pub fn read_float(bytes: &Vec<u8>, pos: &mut usize) -> (r: Result<u32, BsorError>)
    ensures
        match r {
            Ok(v) => spec_read_u32(bytes@, *old(pos) as int) == Ok::<_, BsorError>((
                v,
                *final(pos) as int,
            )),
            Err(e) => spec_read_u32(bytes@, *old(pos) as int) == Err::<(u32, int), _>(e) && *final(pos) == *old(pos),
        },
{
    if bytes.len() >= 4 && *pos <= bytes.len() - 4 {
        let b0 = bytes[*pos];
        let b1 = bytes[*pos + 1];
        let b2 = bytes[*pos + 2];
        let b3 = bytes[*pos + 3];
        let v = (b0 as u32) | ((b1 as u32) << 8) | ((b2 as u32) << 16) | ((b3 as u32) << 24);
        proof {
            let sub = bytes@.subrange(*pos as int, *pos as int + 4);
            assert(sub[0] == b0 && sub[1] == b1 && sub[2] == b2 && sub[3] == b3);
            assert(v == u32_from_le(sub));
        }
        *pos = *pos + 4;
        Ok(v)
    } else {
        Err(BsorError::Io)
    }
}

/// Reads a little-endian `i32`.
pub fn read_int(bytes: &Vec<u8>, pos: &mut usize) -> (r: Result<i32, BsorError>)
    ensures
        match r {
            Ok(v) => spec_read_int(bytes@, *old(pos) as int) == Ok::<_, BsorError>((
                v,
                *final(pos) as int,
            )),
            Err(e) => spec_read_int(bytes@, *old(pos) as int) == Err::<(i32, int), _>(e) && *final(pos) == *old(pos),
        },
{
    let v = read_float(bytes, pos)?;
    Ok(to_signed(v))
}

/// Reads a little-endian `u64`.
pub fn read_long(bytes: &Vec<u8>, pos: &mut usize) -> (r: Result<u64, BsorError>)
    ensures
        match r {
            Ok(v) => spec_read_long(bytes@, *old(pos) as int) == Ok::<_, BsorError>((
                v,
                *final(pos) as int,
            )),
            Err(e) => spec_read_long(bytes@, *old(pos) as int) == Err::<(u64, int), _>(e) && *final(pos) == *old(pos),
        },
{
    if bytes.len() >= 8 && *pos <= bytes.len() - 8 {
        let b0 = bytes[*pos];
        let b1 = bytes[*pos + 1];
        let b2 = bytes[*pos + 2];
        let b3 = bytes[*pos + 3];
        let b4 = bytes[*pos + 4];
        let b5 = bytes[*pos + 5];
        let b6 = bytes[*pos + 6];
        let b7 = bytes[*pos + 7];
        let v = (b0 as u64) | ((b1 as u64) << 8) | ((b2 as u64) << 16) | ((b3 as u64) << 24) | ((b4
            as u64) << 32) | ((b5 as u64) << 40) | ((b6 as u64) << 48) | ((b7 as u64) << 56);
        proof {
            let sub = bytes@.subrange(*pos as int, *pos as int + 8);
            assert(sub[0] == b0 && sub[1] == b1 && sub[2] == b2 && sub[3] == b3 && sub[4] == b4
                && sub[5] == b5 && sub[6] == b6 && sub[7] == b7);
            assert(v == u64_from_le(sub));
        }
        *pos = *pos + 8;
        Ok(v)
    } else {
        Err(BsorError::Io)
    }
}

/// Reads `count` consecutive little-endian `u32` values (raw float bits).
pub fn read_float_multi(bytes: &Vec<u8>, pos: &mut usize, count: usize) -> (r: Result<
    Vec<u32>,
    BsorError,
>)
    ensures
        match r {
            Ok(v) => *final(pos) == *old(pos) + 4 * count && (count > 0 ==> *old(pos) + 4 * count
                <= bytes@.len()) && v@.len() == count && forall|i: int|
                0 <= i < count ==> v@[i] == u32_from_le(
                    bytes@.subrange(*old(pos) + 4 * i, *old(pos) + 4 * i + 4),
                ),
            Err(e) => e == BsorError::Io && *old(pos) + 4 * count > bytes@.len() && *final(pos)
                == *old(pos),
        },
{
    let start = *pos;
    let mut v: Vec<u32> = Vec::new();
    let mut i: usize = 0;
    while i < count
        invariant
            start == *old(pos),
            i <= count,
            *pos == start + 4 * i,
            i > 0 ==> start + 4 * i <= bytes@.len(),
            v@.len() == i,
            forall|j: int|
                0 <= j < i ==> v@[j] == u32_from_le(
                    bytes@.subrange(start + 4 * j, start + 4 * j + 4),
                ),
        decreases count - i,
    {
        match read_float(bytes, pos) {
            Ok(x) => {
                v.push(x);
            },
            Err(_) => {
                *pos = start;
                return Err(BsorError::Io);
            },
        }
        i = i + 1;
    }
    Ok(v)
}

/// Relies on `String::from_utf8`: it succeeds exactly when the bytes are
/// valid UTF-8, and the returned string owns the given bytes unchanged, so
/// its characters are their UTF-8 decoding.
#[verifier::external_body]
fn string_from_utf8(v: Vec<u8>) -> (r: Option<String>)
    ensures
        r is Some <==> valid_utf8(v@),
        r matches Some(s) ==> s@ == decode_utf8(v@),
{
    String::from_utf8(v).ok()
}

/// Reads a length-prefixed UTF-8 string: an `i32` byte count, then that many
/// bytes decoded as UTF-8.
pub fn read_string(bytes: &Vec<u8>, pos: &mut usize) -> (r: Result<String, BsorError>)
    ensures
        match r {
            Ok(s) => spec_read_string(bytes@, *old(pos) as int) == Ok::<_, BsorError>((
                s@,
                *final(pos) as int,
            )),
            Err(e) => spec_read_string(bytes@, *old(pos) as int) == Err::<(Seq<char>, int), _>(e)
                && *final(pos) == *old(pos),
        },
{
    let start = *pos;
    let len = match read_int(bytes, pos) {
        Ok(v) => v,
        Err(e) => {
            return Err(e);
        },
    };
    if len < 0 {
        *pos = start;
        return Err(BsorError::Io);
    }
    let n = len as usize;
    if n > bytes.len() - *pos {
        *pos = start;
        return Err(BsorError::Io);
    }
    let mut raw: Vec<u8> = Vec::new();
    let mut i: usize = 0;
    while i < n
        invariant
            i <= n,
            *pos + n <= bytes@.len(),
            bytes@.len() <= usize::MAX,
            raw@ =~= bytes@.subrange(*pos as int, *pos + i),
        decreases n - i,
    {
        raw.push(bytes[*pos + i]);
        proof {
            assert(raw@ =~= bytes@.subrange(*pos as int, *pos + i + 1));
        }
        i = i + 1;
    }
    match string_from_utf8(raw) {
        Some(s) => {
            *pos = *pos + n;
            Ok(s)
        },
        None => {
            *pos = start;
            Err(BsorError::Decoding)
        },
    }
}

/// Copies as many bytes as `buffer` already holds from the cursor into
/// `buffer`, overwriting its contents.
pub fn read_into_buffer(bytes: &Vec<u8>, pos: &mut usize, buffer: &mut Vec<u8>) -> (r: Result<
    (),
    BsorError,
>)
    ensures
        match r {
            Ok(()) => *old(pos) + old(buffer)@.len() <= bytes@.len() && *final(pos) == *old(pos)
                + old(buffer)@.len() && final(buffer)@ == bytes@.subrange(
                *old(pos) as int,
                *final(pos) as int,
            ),
            Err(e) => e == BsorError::Io && *old(pos) + old(buffer)@.len() > bytes@.len() && *final(pos) == *old(pos) && final(buffer)@ == old(buffer)@,
        },
{
    let n = buffer.len();
    if bytes.len() < n || *pos > bytes.len() - n {
        return Err(BsorError::Io);
    }
    let start = *pos;
    let mut i: usize = 0;
    while i < n
        invariant
            i <= n,
            start + n <= bytes@.len(),
            bytes@.len() <= usize::MAX,
            buffer@.len() == n,
            forall|j: int| 0 <= j < i ==> buffer@[j] == bytes@[start + j],
        decreases n - i,
    {
        buffer[i] = bytes[start + i];
        i = i + 1;
    }
    *pos = start + n;
    proof {
        assert(buffer@ =~= bytes@.subrange(start as int, start + n));
    }
    Ok(())
}

} // verus!
