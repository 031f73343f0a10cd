//! The Walls section: obstacle records with a packed identifier.

use vstd::prelude::*;

use crate::error::BsorError;
use crate::read_utils::read_float;
use crate::read_utils::read_int;
use crate::replay::BlockIndex;
use crate::replay::BlockType;
use crate::replay::LineValue;
use crate::replay::ReplayFloat;
use crate::replay::ReplayTime;
use crate::section::append_section_records;
use crate::section::enc_section;
use crate::section::load_section_records;
use crate::section::record_encoder;
use crate::section::record_reader;
use crate::section::scan_fixed;
use crate::section::spec_load_section;
use crate::section::spec_scan_fixed;
use crate::section::WireRecord;
use crate::wire::i32_to_le;
use crate::wire::spec_read_int;
use crate::wire::spec_read_u32;
use crate::wire::tdiv;
use crate::wire::tdiv_i32;
use crate::wire::tmod;
use crate::wire::tmod_i32;
use crate::wire::u32_to_le;
use crate::wire::wrap8;
use crate::wire::wrap8_i32;
use crate::write_utils::append_float;
use crate::write_utils::append_int;

verus! {

/// One wall (obstacle) record.  On the wire the first `i32` packs
/// `lineIdx * 100 + obstacleType * 10 + width`; decoding decomposes it with
/// truncating division and wrapping casts, exactly as written here.
#[derive(PartialEq, Eq, Structural, Clone, Copy, Debug)]
pub struct Wall {
    pub line_idx: LineValue,
    pub obstacle_type: u8,
    pub width: u8,
    pub energy: ReplayFloat,
    pub time: ReplayTime,
    pub spawn_time: ReplayTime,
}

/// The packed identifier a wall re-encodes to.
pub open spec fn wall_id(w: Wall) -> i32 {
    (w.line_idx * 100 + w.obstacle_type * 10 + w.width) as i32
}

impl WireRecord for Wall {
    open spec fn spec_load(b: Seq<u8>, pos: int) -> Result<(Wall, int), BsorError> {
        match spec_read_int(b, pos) {
            Err(e) => Err(e),
            Ok((id, p1)) => match spec_read_u32(b, p1) {
                Err(e) => Err(e),
                Ok((energy, p2)) => match spec_read_u32(b, p2) {
                    Err(e) => Err(e),
                    Ok((time, p3)) => match spec_read_u32(b, p3) {
                        Err(e) => Err(e),
                        Ok((spawn_time, p4)) => Ok(
                            (
                                Wall {
                                    line_idx: wrap8(tdiv(id as int, 100)),
                                    obstacle_type: wrap8(tdiv(tmod(id as int, 100), 10)),
                                    width: wrap8(tmod(tmod(id as int, 100), 10)),
                                    energy,
                                    time,
                                    spawn_time,
                                },
                                p4,
                            ),
                        ),
                    },
                },
            },
        }
    }

    /// The wire form of a [`Wall`]: the packed identifier, then three float
    /// patterns.
    open spec fn spec_enc(self) -> Seq<u8> {
        i32_to_le(wall_id(self)) + u32_to_le(self.energy) + u32_to_le(self.time) + u32_to_le(
            self.spawn_time,
        )
    }

    fn load(bytes: &Vec<u8>, pos: &mut usize) -> (r: Result<Wall, BsorError>) {
        let start = *pos;
        let id = read_int(bytes, pos)?;
        let line_idx = wrap8_i32(tdiv_i32(id, 100));
        let rem = tmod_i32(id, 100);
        let obstacle_type = wrap8_i32(tdiv_i32(rem, 10));
        let width = wrap8_i32(tmod_i32(rem, 10));
        let energy = match read_float(bytes, pos) {
            Ok(v) => v,
            Err(e) => {
                *pos = start;
                return Err(e);
            },
        };
        let time = match read_float(bytes, pos) {
            Ok(v) => v,
            Err(e) => {
                *pos = start;
                return Err(e);
            },
        };
        let spawn_time = match read_float(bytes, pos) {
            Ok(v) => v,
            Err(e) => {
                *pos = start;
                return Err(e);
            },
        };
        Ok(Wall { line_idx, obstacle_type, width, energy, time, spawn_time })
    }

    fn append(&self, out: &mut Vec<u8>) {
        let id: i32 = (self.line_idx as i32) * 100 + (self.obstacle_type as i32) * 10
            + (self.width as i32);
        append_int(out, id);
        append_float(out, self.energy);
        append_float(out, self.time);
        append_float(out, self.spawn_time);
        proof {
            assert(out@ =~= old(out)@ + self.spec_enc());
        }
    }
}

impl Wall {
    /// The fixed number of bytes a [`Wall`] occupies on the wire.
    pub fn get_static_size() -> (r: usize)
        ensures
            r == 16,
            forall|w: Wall| (#[trigger] w.spec_enc()).len() == r,
    {
        16
    }
}

/// A wall whose re-encoded identifier decomposes back to the same fields:
/// the obstacle type and width must stay within their decimal digit.
pub open spec fn wall_wf(w: Wall) -> bool {
    w.obstacle_type <= 9 && w.width <= 9
}

/// Decoding the wire form of a well-formed [`Wall`] gives back the record.
pub proof fn lemma_wall_round_trip(b: Seq<u8>, pos: int, w: Wall)
    requires
        wall_wf(w),
        0 <= pos,
        pos + 16 <= b.len(),
        b.subrange(pos, pos + 16) == w.spec_enc(),
    ensures
        Wall::spec_load(b, pos) == Ok::<_, BsorError>((w, pos + 16)),
{
    crate::wire::lemma_i32_le_identity(wall_id(w));
    crate::wire::lemma_u32_le_identity(w.energy);
    crate::wire::lemma_u32_le_identity(w.time);
    crate::wire::lemma_u32_le_identity(w.spawn_time);
    let s1 = b.subrange(pos, pos + 4);
    let s2 = b.subrange(pos + 4, pos + 8);
    let s3 = b.subrange(pos + 8, pos + 12);
    let s4 = b.subrange(pos + 12, pos + 16);
    assert(b.subrange(pos, pos + 16) =~= s1 + s2 + s3 + s4);
    crate::wire::lemma_seq_parts2(
        s1 + s2 + s3,
        s4,
        i32_to_le(wall_id(w)) + u32_to_le(w.energy) + u32_to_le(w.time),
        u32_to_le(w.spawn_time),
    );
    crate::wire::lemma_seq_parts2(
        s1 + s2,
        s3,
        i32_to_le(wall_id(w)) + u32_to_le(w.energy),
        u32_to_le(w.time),
    );
    crate::wire::lemma_seq_parts2(s1, s2, i32_to_le(wall_id(w)), u32_to_le(w.energy));
    let id = wall_id(w) as int;
    assert(id == w.line_idx * 100 + w.obstacle_type * 10 + w.width);
    let r = w.obstacle_type * 10 + w.width;
    assert(tdiv(id, 100) == w.line_idx as int && tmod(id, 100) == r) by (nonlinear_arith)
        requires
            id == w.line_idx * 100 + r,
            0 <= r < 100,
            0 <= w.line_idx,
            id >= 0,
    ;
    assert(tdiv(r, 10) == w.obstacle_type as int && tmod(r, 10) == w.width as int)
        by (nonlinear_arith)
        requires
            r == w.obstacle_type * 10 + w.width,
            0 <= w.width < 10,
            0 <= w.obstacle_type,
    ;
    assert(wrap8(w.line_idx as int) == w.line_idx);
    assert(wrap8(w.obstacle_type as int) == w.obstacle_type);
    assert(wrap8(w.width as int) == w.width);
}

/// A decoded [`Wall`] always spans exactly sixteen bytes.
pub proof fn lemma_wall_width(b: Seq<u8>, pos: int)
    ensures
        Wall::spec_load(b, pos) matches Ok((w, p)) ==> 0 <= pos && p == pos + 16 && p <= b.len(),
{
}

/// Reads the whole Walls section (tag 3).
pub open spec fn spec_load_walls(b: Seq<u8>, pos: int) -> Result<(Seq<Wall>, int), BsorError> {
    spec_load_section(record_reader::<Wall>(), b, pos, 3)
}

/// The wire form of the Walls section.
pub open spec fn enc_walls(s: Seq<Wall>) -> Seq<u8>
    recommends
        s.len() <= i32::MAX,
{
    enc_section(record_encoder::<Wall>(), 3, s)
}

/// The deferred size of the Walls section: `5 + count * 16`.
pub open spec fn spec_scan_walls(b: Seq<u8>, pos: int) -> Result<(i32, int), BsorError> {
    spec_scan_fixed(b, pos, 3, 16)
}

/// The ordered collection of all records of the Walls section.
#[derive(Debug, PartialEq)]
pub struct Walls(Vec<Wall>);

impl View for Walls {
    type V = Seq<Wall>;

    closed spec fn view(&self) -> Seq<Wall> {
        self.0@
    }
}

impl Walls {
    /// Wraps an already decoded record list.
    pub fn new(vec: Vec<Wall>) -> (r: Walls)
        ensures
            r@ == vec@,
    {
        Walls(vec)
    }

    /// Decodes the Walls section at the cursor.
    pub fn load(bytes: &Vec<u8>, pos: &mut usize) -> (r: Result<Walls, BsorError>)
        ensures
            match r {
                Ok(v) => spec_load_walls(bytes@, *old(pos) as int) == Ok::<_, BsorError>((
                    v@,
                    *final(pos) as int,
                )),
                Err(e) => spec_load_walls(bytes@, *old(pos) as int) == Err::<(Seq<Wall>, int), _>(e)
                    && *final(pos) == *old(pos),
            },
    {
        let v = load_section_records::<Wall>(bytes, pos, BlockType::Walls)?;
        Ok(Walls(v))
    }

    /// Decodes the Walls section that a previously computed handle points
    /// at; the decode is a fresh one, independent of any earlier decode.
    pub fn load_block(bytes: &Vec<u8>, block: &BlockIndex<Walls>) -> (r: Result<Walls, BsorError>)
        ensures
            match r {
                Ok(v) => exists|p: int|
                    spec_load_walls(bytes@, block.spec_pos() as int) == Ok::<_, BsorError>((v@, p)),
                Err(e) => spec_load_walls(bytes@, block.spec_pos() as int) == Err::<
                    (Seq<Wall>, int),
                    _,
                >(e) || block.spec_pos() > usize::MAX,
            },
    {
        if block.pos() > usize::MAX as u64 {
            return Err(BsorError::Io);
        }
        let mut pos: usize = block.pos() as usize;
        Self::load(bytes, &mut pos)
    }

    /// The decoded records, in wire order.
    pub fn get_vec(&self) -> (r: &Vec<Wall>)
        ensures
            r@ == self@,
    {
        &self.0
    }

    /// The number of records.
    pub fn len(&self) -> (r: usize)
        ensures
            r == self@.len(),
    {
        self.0.len()
    }

    /// Whether the section holds no records.
    pub fn is_empty(&self) -> (r: bool)
        ensures
            r == (self@.len() == 0),
    {
        self.0.len() == 0
    }

    /// The envelope bytes of the section: tag plus count.
    pub fn get_static_size() -> (r: usize)
        ensures
            r == 5,
    {
        5
    }

    /// Computes the section's handle without visiting any record: reads tag
    /// and count, then takes the byte length from the fixed record width.
    pub fn load_real_block_size(bytes: &Vec<u8>, pos: &mut usize, at: u64) -> (r: Result<
        BlockIndex<Walls>,
        BsorError,
    >)
        ensures
            match r {
                Ok(idx) => idx.spec_pos() == at && spec_scan_walls(bytes@, *old(pos) as int)
                    == Ok::<_, BsorError>((idx.spec_len(), idx.spec_bytes() as int)) && *final(pos)
                    == *old(pos) + 5,
                Err(e) => spec_scan_walls(bytes@, *old(pos) as int) == Err::<(i32, int), _>(e)
                    && *final(pos) == *old(pos),
            },
    {
        let (count, size) = scan_fixed(bytes, pos, BlockType::Walls, 16)?;
        Ok(BlockIndex::make(at, size, count))
    }
}

/// Appends the wire form of one [`Wall`].
pub fn append_wall(out: &mut Vec<u8>, w: &Wall)
    ensures
        final(out)@ == old(out)@ + w.spec_enc(),
{
    w.append(out);
}

/// Appends the wire form of the whole Walls section.
pub fn append_walls(out: &mut Vec<u8>, walls: &Vec<Wall>)
    requires
        walls@.len() <= i32::MAX,
    ensures
        final(out)@ == old(out)@ + enc_walls(walls@),
{
    append_section_records(out, BlockType::Walls, walls);
}

/// Every well-formed encoded Walls section decodes back to its records.
pub proof fn lemma_walls_round_trip(b: Seq<u8>, pos: int, s: Seq<Wall>)
    requires
        forall|i: int| 0 <= i < s.len() ==> wall_wf(#[trigger] s[i]),
        s.len() <= i32::MAX,
        0 <= pos,
        pos + enc_walls(s).len() <= b.len(),
        b.subrange(pos, pos + enc_walls(s).len()) == enc_walls(s),
    ensures
        spec_load_walls(b, pos) == Ok::<_, BsorError>((s, pos + enc_walls(s).len())),
{
    let f = record_reader::<Wall>();
    let enc = record_encoder::<Wall>();
    assert forall|p: int, v: Wall|
        wall_wf(v) && 0 <= p && p + enc(v).len() <= b.len() && #[trigger] b.subrange(
            p,
            p + enc(v).len(),
        ) == enc(v) implies f(b, p) == Ok::<_, BsorError>((v, p + enc(v).len())) by {
        assert(enc(v) == v.spec_enc());
        lemma_wall_round_trip(b, p, v);
        assert(f(b, p) == Wall::spec_load(b, p));
    }
    crate::section::lemma_section_round_trip(f, enc, |v: Wall| wall_wf(v), b, pos, 3, s);
}

/// The deferred size of the Walls section equals the number of bytes its
/// eager decode consumes.
pub proof fn lemma_walls_scan_agrees(b: Seq<u8>, pos: int)
    ensures
        spec_load_walls(b, pos) matches Ok((s, p2)) ==> spec_scan_walls(b, pos) == Ok::<
            _,
            BsorError,
        >((s.len() as i32, p2 - pos)),
{
    let f = record_reader::<Wall>();
    assert forall|p: int| #[trigger] f(b, p) matches Ok((v, pe)) ==> pe == p + 16 by {
        lemma_wall_width(b, p);
        assert(f(b, p) == Wall::spec_load(b, p));
    }
    crate::section::lemma_scan_fixed_agrees(f, b, pos, 3, 16);
}

} // verus!
