//! Three- and four-component vectors of raw 32-bit float patterns.

use vstd::prelude::*;

use crate::error::BsorError;
use crate::read_utils::read_float_multi;
use crate::replay::ReplayFloat;
use crate::wire::spec_read_u32;
use crate::wire::u32_to_le;
use crate::write_utils::append_float;

verus! {

/// A three-component vector; each component is the raw bit pattern of a
/// 32-bit float.
#[derive(PartialEq, Eq, Structural, Clone, Copy, Debug)]
pub struct Vector3 {
    pub x: ReplayFloat,
    pub y: ReplayFloat,
    pub z: ReplayFloat,
}

/// A four-component vector; each component is the raw bit pattern of a
/// 32-bit float.
#[derive(PartialEq, Eq, Structural, Clone, Copy, Debug)]
pub struct Vector4 {
    pub x: ReplayFloat,
    pub y: ReplayFloat,
    pub z: ReplayFloat,
    pub w: ReplayFloat,
}

/// Reads three consecutive float patterns.
pub open spec fn spec_load_vector3(b: Seq<u8>, pos: int) -> Result<(Vector3, int), BsorError> {
    match spec_read_u32(b, pos) {
        Err(e) => Err(e),
        Ok((x, p1)) => match spec_read_u32(b, p1) {
            Err(e) => Err(e),
            Ok((y, p2)) => match spec_read_u32(b, p2) {
                Err(e) => Err(e),
                Ok((z, p3)) => Ok((Vector3 { x, y, z }, p3)),
            },
        },
    }
}

/// Reads four consecutive float patterns.
pub open spec fn spec_load_vector4(b: Seq<u8>, pos: int) -> Result<(Vector4, int), BsorError> {
    match spec_read_u32(b, pos) {
        Err(e) => Err(e),
        Ok((x, p1)) => match spec_read_u32(b, p1) {
            Err(e) => Err(e),
            Ok((y, p2)) => match spec_read_u32(b, p2) {
                Err(e) => Err(e),
                Ok((z, p3)) => match spec_read_u32(b, p3) {
                    Err(e) => Err(e),
                    Ok((w, p4)) => Ok((Vector4 { x, y, z, w }, p4)),
                },
            },
        },
    }
}

/// The wire form of a [`Vector3`]: three little-endian 32-bit patterns.
pub open spec fn enc_vector3(v: Vector3) -> Seq<u8> {
    u32_to_le(v.x) + u32_to_le(v.y) + u32_to_le(v.z)
}

/// The wire form of a [`Vector4`]: four little-endian 32-bit patterns.
pub open spec fn enc_vector4(v: Vector4) -> Seq<u8> {
    u32_to_le(v.x) + u32_to_le(v.y) + u32_to_le(v.z) + u32_to_le(v.w)
}

impl Vector3 {
    /// Decodes a [`Vector3`] at the cursor.
    pub fn load(bytes: &Vec<u8>, pos: &mut usize) -> (r: Result<Vector3, BsorError>)
        ensures
            match r {
                Ok(v) => spec_load_vector3(bytes@, *old(pos) as int) == Ok::<_, BsorError>((
                    v,
                    *final(pos) as int,
                )),
                Err(e) => spec_load_vector3(bytes@, *old(pos) as int) == Err::<(Vector3, int), _>(e)
                    && *final(pos) == *old(pos),
            },
    {
        let vec = read_float_multi(bytes, pos, 3)?;
        Ok(Vector3 { x: vec[0], y: vec[1], z: vec[2] })
    }

    /// The fixed number of bytes a [`Vector3`] occupies on the wire.
    pub fn get_static_size() -> (r: usize)
        ensures
            r == 12,
            forall|v: Vector3| (#[trigger] enc_vector3(v)).len() == r,
    {
        12
    }
}

impl Vector4 {
    /// Decodes a [`Vector4`] at the cursor.
    pub fn load(bytes: &Vec<u8>, pos: &mut usize) -> (r: Result<Vector4, BsorError>)
        ensures
            match r {
                Ok(v) => spec_load_vector4(bytes@, *old(pos) as int) == Ok::<_, BsorError>((
                    v,
                    *final(pos) as int,
                )),
                Err(e) => spec_load_vector4(bytes@, *old(pos) as int) == Err::<(Vector4, int), _>(e)
                    && *final(pos) == *old(pos),
            },
    {
        let vec = read_float_multi(bytes, pos, 4)?;
        Ok(Vector4 { x: vec[0], y: vec[1], z: vec[2], w: vec[3] })
    }

    /// The fixed number of bytes a [`Vector4`] occupies on the wire.
    pub fn get_static_size() -> (r: usize)
        ensures
            r == 16,
            forall|v: Vector4| (#[trigger] enc_vector4(v)).len() == r,
    {
        16
    }
}

/// Appends the wire form of a [`Vector3`].
pub fn append_vector3(out: &mut Vec<u8>, v: &Vector3)
    ensures
        final(out)@ == old(out)@ + enc_vector3(*v),
{
    append_float(out, v.x);
    append_float(out, v.y);
    append_float(out, v.z);
    proof {
        assert(out@ =~= old(out)@ + enc_vector3(*v));
    }
}

/// Appends the wire form of a [`Vector4`].
pub fn append_vector4(out: &mut Vec<u8>, v: &Vector4)
    ensures
        final(out)@ == old(out)@ + enc_vector4(*v),
{
    append_float(out, v.x);
    append_float(out, v.y);
    append_float(out, v.z);
    append_float(out, v.w);
    proof {
        assert(out@ =~= old(out)@ + enc_vector4(*v));
    }
}

/// Decoding the wire form of a [`Vector3`] gives back the vector.
pub proof fn lemma_vector3_round_trip(b: Seq<u8>, pos: int, v: Vector3)
    requires
        0 <= pos,
        pos + 12 <= b.len(),
        b.subrange(pos, pos + 12) == enc_vector3(v),
    ensures
        spec_load_vector3(b, pos) == Ok::<_, BsorError>((v, pos + 12)),
{
    crate::wire::lemma_u32_le_identity(v.x);
    crate::wire::lemma_u32_le_identity(v.y);
    crate::wire::lemma_u32_le_identity(v.z);
    let s1 = b.subrange(pos, pos + 4);
    let s2 = b.subrange(pos + 4, pos + 8);
    let s3 = b.subrange(pos + 8, pos + 12);
    assert(b.subrange(pos, pos + 12) =~= s1 + s2 + s3);
    crate::wire::lemma_seq_parts2(s1 + s2, s3, u32_to_le(v.x) + u32_to_le(v.y), u32_to_le(v.z));
    crate::wire::lemma_seq_parts2(s1, s2, u32_to_le(v.x), u32_to_le(v.y));
}

/// Decoding the wire form of a [`Vector4`] gives back the vector.
pub proof fn lemma_vector4_round_trip(b: Seq<u8>, pos: int, v: Vector4)
    requires
        0 <= pos,
        pos + 16 <= b.len(),
        b.subrange(pos, pos + 16) == enc_vector4(v),
    ensures
        spec_load_vector4(b, pos) == Ok::<_, BsorError>((v, pos + 16)),
{
    crate::wire::lemma_u32_le_identity(v.x);
    crate::wire::lemma_u32_le_identity(v.y);
    crate::wire::lemma_u32_le_identity(v.z);
    crate::wire::lemma_u32_le_identity(v.w);
    let s1 = b.subrange(pos, pos + 4);
    let s2 = b.subrange(pos + 4, pos + 8);
    let s3 = b.subrange(pos + 8, pos + 12);
    let s4 = b.subrange(pos + 12, pos + 16);
    assert(b.subrange(pos, pos + 16) =~= s1 + s2 + s3 + s4);
    crate::wire::lemma_seq_parts2(
        s1 + s2 + s3,
        s4,
        u32_to_le(v.x) + u32_to_le(v.y) + u32_to_le(v.z),
        u32_to_le(v.w),
    );
    crate::wire::lemma_seq_parts2(s1 + s2, s3, u32_to_le(v.x) + u32_to_le(v.y), u32_to_le(v.z));
    crate::wire::lemma_seq_parts2(s1, s2, u32_to_le(v.x), u32_to_le(v.y));
}

/// Decoding always consumes exactly the bytes that re-encoding produces.
pub proof fn lemma_vector3_encode_decode(b: Seq<u8>, pos: int)
    ensures
        spec_load_vector3(b, pos) matches Ok((v, p)) ==> p == pos + 12 && b.subrange(pos, p)
            == enc_vector3(v),
{
    if spec_load_vector3(b, pos) is Ok {
        crate::wire::lemma_le_u32_identity(b.subrange(pos, pos + 4));
        crate::wire::lemma_le_u32_identity(b.subrange(pos + 4, pos + 8));
        crate::wire::lemma_le_u32_identity(b.subrange(pos + 8, pos + 12));
        assert(b.subrange(pos, pos + 12) =~= b.subrange(pos, pos + 4) + b.subrange(
            pos + 4,
            pos + 8,
        ) + b.subrange(pos + 8, pos + 12));
    }
}

/// Decoding always consumes exactly the bytes that re-encoding produces.
pub proof fn lemma_vector4_encode_decode(b: Seq<u8>, pos: int)
    ensures
        spec_load_vector4(b, pos) matches Ok((v, p)) ==> p == pos + 16 && b.subrange(pos, p)
            == enc_vector4(v),
{
    if spec_load_vector4(b, pos) is Ok {
        crate::wire::lemma_le_u32_identity(b.subrange(pos, pos + 4));
        crate::wire::lemma_le_u32_identity(b.subrange(pos + 4, pos + 8));
        crate::wire::lemma_le_u32_identity(b.subrange(pos + 8, pos + 12));
        crate::wire::lemma_le_u32_identity(b.subrange(pos + 12, pos + 16));
        assert(b.subrange(pos, pos + 16) =~= b.subrange(pos, pos + 4) + b.subrange(
            pos + 4,
            pos + 8,
        ) + b.subrange(pos + 8, pos + 12) + b.subrange(pos + 12, pos + 16));
    }
}

impl From<Vector4> for Vector3 {
    /// Drops the `w` component.
    fn from(v: Vector4) -> (r: Vector3) {
        Vector3 { x: v.x, y: v.y, z: v.z }
    }
}

impl vstd::std_specs::convert::FromSpecImpl<Vector4> for Vector3 {
    open spec fn obeys_from_spec() -> bool {
        true
    }

    open spec fn from_spec(v: Vector4) -> Vector3 {
        Vector3 { x: v.x, y: v.y, z: v.z }
    }
}

impl From<Vector3> for Vector4 {
    /// Extends with a zero `w` component.
    fn from(v: Vector3) -> (r: Vector4) {
        Vector4 { x: v.x, y: v.y, z: v.z, w: 0 }
    }
}

impl vstd::std_specs::convert::FromSpecImpl<Vector3> for Vector4 {
    open spec fn obeys_from_spec() -> bool {
        true
    }

    open spec fn from_spec(v: Vector3) -> Vector4 {
        Vector4 { x: v.x, y: v.y, z: v.z, w: 0 }
    }
}

} // verus!
