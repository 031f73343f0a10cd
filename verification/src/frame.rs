//! The Frames section: per-frame head and hand positions and rotations.

use vstd::prelude::*;

use crate::error::BsorError;
use crate::read_utils::read_float;
use crate::read_utils::read_int;
use crate::replay::BlockIndex;
use crate::replay::BlockType;
use crate::replay::ReplayInt;
use crate::replay::ReplayTime;
use crate::section::append_section_records;
use crate::section::enc_section;
use crate::section::load_section_records;
use crate::section::record_encoder;
use crate::section::record_reader;
use crate::section::scan_fixed;
use crate::section::spec_load_section;
use crate::section::spec_scan_fixed;
use crate::section::WireRecord;
use crate::vector::append_vector3;
use crate::vector::append_vector4;
use crate::vector::enc_vector3;
use crate::vector::enc_vector4;
use crate::vector::spec_load_vector3;
use crate::vector::spec_load_vector4;
use crate::vector::Vector3;
use crate::vector::Vector4;
use crate::wire::i32_to_le;
use crate::wire::spec_read_int;
use crate::wire::spec_read_u32;
use crate::wire::u32_to_le;
use crate::write_utils::append_float;
use crate::write_utils::append_int;

verus! {

/// The position and rotation of one tracked object.
#[derive(PartialEq, Eq, Structural, Clone, Copy, Debug)]
pub struct PositionAndRotation {
    pub position: Vector3,
    pub rotation: Vector4,
}

/// Reads a [`PositionAndRotation`]: a [`Vector3`] then a [`Vector4`].
pub open spec fn spec_load_pr(b: Seq<u8>, pos: int) -> Result<
    (PositionAndRotation, int),
    BsorError,
> {
    match spec_load_vector3(b, pos) {
        Err(e) => Err(e),
        Ok((position, p1)) => match spec_load_vector4(b, p1) {
            Err(e) => Err(e),
            Ok((rotation, p2)) => Ok((PositionAndRotation { position, rotation }, p2)),
        },
    }
}

/// The wire form of a [`PositionAndRotation`]: 28 bytes.
pub open spec fn enc_pr(v: PositionAndRotation) -> Seq<u8> {
    enc_vector3(v.position) + enc_vector4(v.rotation)
}

impl PositionAndRotation {
    /// Decodes a [`PositionAndRotation`] at the cursor.
    pub fn load(bytes: &Vec<u8>, pos: &mut usize) -> (r: Result<PositionAndRotation, BsorError>)
        ensures
            match r {
                Ok(v) => spec_load_pr(bytes@, *old(pos) as int) == Ok::<_, BsorError>((
                    v,
                    *final(pos) as int,
                )),
                Err(e) => spec_load_pr(bytes@, *old(pos) as int) == Err::<
                    (PositionAndRotation, int),
                    _,
                >(e) && *final(pos) == *old(pos),
            },
    {
        let start = *pos;
        let position = Vector3::load(bytes, pos)?;
        let rotation = match Vector4::load(bytes, pos) {
            Ok(v) => v,
            Err(e) => {
                *pos = start;
                return Err(e);
            },
        };
        Ok(PositionAndRotation { position, rotation })
    }

    /// The fixed number of bytes a [`PositionAndRotation`] occupies.
    pub fn get_static_size() -> (r: usize)
        ensures
            r == 28,
            forall|v: PositionAndRotation| (#[trigger] enc_pr(v)).len() == r,
    {
        28
    }
}

/// Appends the wire form of a [`PositionAndRotation`].
pub fn append_position_and_rotation(out: &mut Vec<u8>, v: &PositionAndRotation)
    ensures
        final(out)@ == old(out)@ + enc_pr(*v),
{
    append_vector3(out, &v.position);
    append_vector4(out, &v.rotation);
    proof {
        assert(out@ =~= old(out)@ + enc_pr(*v));
    }
}

/// Decoding the wire form of a [`PositionAndRotation`] gives it back.
pub proof fn lemma_pr_round_trip(b: Seq<u8>, pos: int, v: PositionAndRotation)
    requires
        0 <= pos,
        pos + 28 <= b.len(),
        b.subrange(pos, pos + 28) == enc_pr(v),
    ensures
        spec_load_pr(b, pos) == Ok::<_, BsorError>((v, pos + 28)),
{
    let s1 = b.subrange(pos, pos + 12);
    let s2 = b.subrange(pos + 12, pos + 28);
    assert(b.subrange(pos, pos + 28) =~= s1 + s2);
    crate::wire::lemma_seq_parts2(s1, s2, enc_vector3(v.position), enc_vector4(v.rotation));
    crate::vector::lemma_vector3_round_trip(b, pos, v.position);
    crate::vector::lemma_vector4_round_trip(b, pos + 12, v.rotation);
}

/// One frame: its time, the frame rate, and the three tracked objects.
#[derive(PartialEq, Eq, Structural, Clone, Copy, Debug)]
pub struct Frame {
    pub time: ReplayTime,
    pub fps: ReplayInt,
    pub head: PositionAndRotation,
    pub left_hand: PositionAndRotation,
    pub right_hand: PositionAndRotation,
}

impl WireRecord for Frame {
    open spec fn spec_load(b: Seq<u8>, pos: int) -> Result<(Frame, int), BsorError> {
        match spec_read_u32(b, pos) {
            Err(e) => Err(e),
            Ok((time, p1)) => match spec_read_int(b, p1) {
                Err(e) => Err(e),
                Ok((fps, p2)) => match spec_load_pr(b, p2) {
                    Err(e) => Err(e),
                    Ok((head, p3)) => match spec_load_pr(b, p3) {
                        Err(e) => Err(e),
                        Ok((left_hand, p4)) => match spec_load_pr(b, p4) {
                            Err(e) => Err(e),
                            Ok((right_hand, p5)) => Ok(
                                (Frame { time, fps, head, left_hand, right_hand }, p5),
                            ),
                        },
                    },
                },
            },
        }
    }

    /// The wire form of a [`Frame`]: 92 bytes.
    open spec fn spec_enc(self) -> Seq<u8> {
        u32_to_le(self.time) + i32_to_le(self.fps) + enc_pr(self.head) + enc_pr(self.left_hand)
            + enc_pr(self.right_hand)
    }

    fn load(bytes: &Vec<u8>, pos: &mut usize) -> (r: Result<Frame, BsorError>) {
        let start = *pos;
        let time = read_float(bytes, pos)?;
        let fps = match read_int(bytes, pos) {
            Ok(v) => v,
            Err(e) => {
                *pos = start;
                return Err(e);
            },
        };
        let head = match PositionAndRotation::load(bytes, pos) {
            Ok(v) => v,
            Err(e) => {
                *pos = start;
                return Err(e);
            },
        };
        let left_hand = match PositionAndRotation::load(bytes, pos) {
            Ok(v) => v,
            Err(e) => {
                *pos = start;
                return Err(e);
            },
        };
        let right_hand = match PositionAndRotation::load(bytes, pos) {
            Ok(v) => v,
            Err(e) => {
                *pos = start;
                return Err(e);
            },
        };
        Ok(Frame { time, fps, head, left_hand, right_hand })
    }

    fn append(&self, out: &mut Vec<u8>) {
        append_float(out, self.time);
        append_int(out, self.fps);
        append_position_and_rotation(out, &self.head);
        append_position_and_rotation(out, &self.left_hand);
        append_position_and_rotation(out, &self.right_hand);
        proof {
            assert(out@ =~= old(out)@ + self.spec_enc());
        }
    }
}

impl Frame {
    /// The fixed number of bytes a [`Frame`] occupies on the wire.
    pub fn get_static_size() -> (r: usize)
        ensures
            r == 92,
            forall|v: Frame| (#[trigger] v.spec_enc()).len() == r,
    {
        92
    }
}

/// Decoding the wire form of a [`Frame`] gives back the record.
#[verifier::rlimit(100)]
pub proof fn lemma_frame_round_trip(b: Seq<u8>, pos: int, v: Frame)
    requires
        0 <= pos,
        pos + 92 <= b.len(),
        b.subrange(pos, pos + 92) == v.spec_enc(),
    ensures
        Frame::spec_load(b, pos) == Ok::<_, BsorError>((v, pos + 92)),
{
    crate::wire::lemma_u32_le_identity(v.time);
    crate::wire::lemma_i32_le_identity(v.fps);
    let s1 = b.subrange(pos, pos + 4);
    let s2 = b.subrange(pos + 4, pos + 8);
    let s3 = b.subrange(pos + 8, pos + 36);
    let s4 = b.subrange(pos + 36, pos + 64);
    let s5 = b.subrange(pos + 64, pos + 92);
    assert(b.subrange(pos, pos + 92) =~= s1 + s2 + s3 + s4 + s5);
    crate::wire::lemma_seq_parts2(
        s1 + s2 + s3 + s4,
        s5,
        u32_to_le(v.time) + i32_to_le(v.fps) + enc_pr(v.head) + enc_pr(v.left_hand),
        enc_pr(v.right_hand),
    );
    crate::wire::lemma_seq_parts2(
        s1 + s2 + s3,
        s4,
        u32_to_le(v.time) + i32_to_le(v.fps) + enc_pr(v.head),
        enc_pr(v.left_hand),
    );
    crate::wire::lemma_seq_parts2(
        s1 + s2,
        s3,
        u32_to_le(v.time) + i32_to_le(v.fps),
        enc_pr(v.head),
    );
    crate::wire::lemma_seq_parts2(s1, s2, u32_to_le(v.time), i32_to_le(v.fps));
    lemma_pr_round_trip(b, pos + 8, v.head);
    lemma_pr_round_trip(b, pos + 36, v.left_hand);
    lemma_pr_round_trip(b, pos + 64, v.right_hand);
}

/// A decoded [`Frame`] always spans exactly 92 bytes.
pub proof fn lemma_frame_width(b: Seq<u8>, pos: int)
    ensures
        Frame::spec_load(b, pos) matches Ok((v, p)) ==> 0 <= pos && p == pos + 92 && p <= b.len(),
{
}

/// Reads the whole Frames section (tag 1).
pub open spec fn spec_load_frames(b: Seq<u8>, pos: int) -> Result<(Seq<Frame>, int), BsorError> {
    spec_load_section(record_reader::<Frame>(), b, pos, 1)
}

/// The wire form of the Frames section.
pub open spec fn enc_frames(s: Seq<Frame>) -> Seq<u8>
    recommends
        s.len() <= i32::MAX,
{
    enc_section(record_encoder::<Frame>(), 1, s)
}

/// The deferred size of the Frames section: `5 + count * 92`.
pub open spec fn spec_scan_frames(b: Seq<u8>, pos: int) -> Result<(i32, int), BsorError> {
    spec_scan_fixed(b, pos, 1, 92)
}

/// The ordered collection of all records of the Frames section.
#[derive(Debug, PartialEq)]
pub struct Frames(Vec<Frame>);

impl View for Frames {
    type V = Seq<Frame>;

    closed spec fn view(&self) -> Seq<Frame> {
        self.0@
    }
}

impl Frames {
    /// Wraps an already decoded record list.
    pub fn new(vec: Vec<Frame>) -> (r: Frames)
        ensures
            r@ == vec@,
    {
        Frames(vec)
    }

    /// Decodes the Frames section at the cursor.
    pub fn load(bytes: &Vec<u8>, pos: &mut usize) -> (r: Result<Frames, BsorError>)
        ensures
            match r {
                Ok(v) => spec_load_frames(bytes@, *old(pos) as int) == Ok::<_, BsorError>((
                    v@,
                    *final(pos) as int,
                )),
                Err(e) => spec_load_frames(bytes@, *old(pos) as int) == Err::<(Seq<Frame>, int), _>(
                    e,
                ) && *final(pos) == *old(pos),
            },
    {
        let v = load_section_records::<Frame>(bytes, pos, BlockType::Frames)?;
        Ok(Frames(v))
    }

    /// Decodes the Frames section that a previously computed handle points
    /// at; the decode is a fresh one, independent of any earlier decode.
    pub fn load_block(bytes: &Vec<u8>, block: &BlockIndex<Frames>) -> (r: Result<
        Frames,
        BsorError,
    >)
        ensures
            match r {
                Ok(v) => exists|p: int|
                    spec_load_frames(bytes@, block.spec_pos() as int) == Ok::<_, BsorError>((
                        v@,
                        p,
                    )),
                Err(e) => spec_load_frames(bytes@, block.spec_pos() as int) == Err::<
                    (Seq<Frame>, int),
                    _,
                >(e) || block.spec_pos() > usize::MAX,
            },
    {
        if block.pos() > usize::MAX as u64 {
            return Err(BsorError::Io);
        }
        let mut pos: usize = block.pos() as usize;
        Self::load(bytes, &mut pos)
    }

    /// The decoded records, in wire order.
    pub fn get_vec(&self) -> (r: &Vec<Frame>)
        ensures
            r@ == self@,
    {
        &self.0
    }

    /// The number of records.
    pub fn len(&self) -> (r: usize)
        ensures
            r == self@.len(),
    {
        self.0.len()
    }

    /// Whether the section holds no records.
    pub fn is_empty(&self) -> (r: bool)
        ensures
            r == (self@.len() == 0),
    {
        self.0.len() == 0
    }

    /// The envelope bytes of the section: tag plus count.
    pub fn get_static_size() -> (r: usize)
        ensures
            r == 5,
    {
        5
    }

    /// Computes the section's handle without visiting any record: reads tag
    /// and count, then takes the byte length from the fixed record width.
    pub fn load_real_block_size(bytes: &Vec<u8>, pos: &mut usize, at: u64) -> (r: Result<
        BlockIndex<Frames>,
        BsorError,
    >)
        ensures
            match r {
                Ok(idx) => idx.spec_pos() == at && spec_scan_frames(bytes@, *old(pos) as int)
                    == Ok::<_, BsorError>((idx.spec_len(), idx.spec_bytes() as int)) && *final(pos)
                    == *old(pos) + 5,
                Err(e) => spec_scan_frames(bytes@, *old(pos) as int) == Err::<(i32, int), _>(e)
                    && *final(pos) == *old(pos),
            },
    {
        let (count, size) = scan_fixed(bytes, pos, BlockType::Frames, 92)?;
        Ok(BlockIndex::make(at, size, count))
    }
}

/// Appends the wire form of one [`Frame`].
pub fn append_frame(out: &mut Vec<u8>, v: &Frame)
    ensures
        final(out)@ == old(out)@ + v.spec_enc(),
{
    v.append(out);
}

/// Appends the wire form of the whole Frames section.
pub fn append_frames(out: &mut Vec<u8>, frames: &Vec<Frame>)
    requires
        frames@.len() <= i32::MAX,
    ensures
        final(out)@ == old(out)@ + enc_frames(frames@),
{
    append_section_records(out, BlockType::Frames, frames);
}

/// Every well-formed encoded Frames section decodes back to its records.
#[verifier::rlimit(100)]
pub proof fn lemma_frames_round_trip(b: Seq<u8>, pos: int, s: Seq<Frame>)
    requires
        s.len() <= i32::MAX,
        0 <= pos,
        pos + enc_frames(s).len() <= b.len(),
        b.subrange(pos, pos + enc_frames(s).len()) == enc_frames(s),
    ensures
        spec_load_frames(b, pos) == Ok::<_, BsorError>((s, pos + enc_frames(s).len())),
{
    let f = record_reader::<Frame>();
    let enc = record_encoder::<Frame>();
    assert forall|p: int, v: Frame|
        0 <= p && p + enc(v).len() <= b.len() && #[trigger] b.subrange(p, p + enc(v).len()) == enc(
            v,
        ) implies f(b, p) == Ok::<_, BsorError>((v, p + enc(v).len())) by {
        assert(enc(v) == v.spec_enc());
        lemma_frame_round_trip(b, p, v);
        assert(f(b, p) == Frame::spec_load(b, p));
    }
    crate::section::lemma_section_round_trip(f, enc, |v: Frame| true, b, pos, 1, s);
}

/// The deferred size of the Frames section equals the number of bytes its
/// eager decode consumes.
pub proof fn lemma_frames_scan_agrees(b: Seq<u8>, pos: int)
    ensures
        spec_load_frames(b, pos) matches Ok((s, p2)) ==> spec_scan_frames(b, pos) == Ok::<
            _,
            BsorError,
        >((s.len() as i32, p2 - pos)),
{
    let f = record_reader::<Frame>();
    assert forall|p: int| #[trigger] f(b, p) matches Ok((v, pe)) ==> pe == p + 92 by {
        lemma_frame_width(b, p);
        assert(f(b, p) == Frame::spec_load(b, p));
    }
    crate::section::lemma_scan_fixed_agrees(f, b, pos, 1, 92);
}

} // verus!
