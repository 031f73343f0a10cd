//! The replay container: header framing, the eager loader, and the deferred
//! indexer.

use vstd::prelude::*;

use crate::error::BsorError;
use crate::read_utils::read_byte;
use crate::wire::spec_read_byte;

verus! {

/// The magic constant that opens every replay file.
pub const BSOR_MAGIC: i32 = 0x442d3d69;

/// The `int` type used in the replay file.
pub type ReplayInt = i32;

/// The `long` type used in the replay file.
pub type ReplayLong = u64;

/// The `float` type used in the replay file, kept as the raw little-endian
/// bit pattern of the 32-bit IEEE-754 value.  The crate never interprets
/// these bits; callers convert with `f32::from_bits` / `f32::to_bits`.
pub type ReplayFloat = u32;

/// The time type used in the replay file (a float, kept as raw bits).
pub type ReplayTime = ReplayFloat;

/// The type used to store a note or wall line index.
pub type LineValue = u8;

/// The six section kinds, in the order they appear in the file.
#[derive(Debug, Clone, Copy, PartialEq, Eq)]
pub enum BlockType {
    Info,
    Frames,
    Notes,
    Walls,
    Heights,
    Pauses,
}

impl BlockType {
    /// The one-byte tag that opens a section of this kind: its ordinal in
    /// the fixed sequence.
    pub open spec fn spec_tag(self) -> u8 {
        match self {
            BlockType::Info => 0,
            BlockType::Frames => 1,
            BlockType::Notes => 2,
            BlockType::Walls => 3,
            BlockType::Heights => 4,
            BlockType::Pauses => 5,
        }
    }

    /// Returns the section's tag byte.
    pub fn tag(self) -> (r: u8)
        ensures
            r == self.spec_tag(),
    {
        match self {
            BlockType::Info => 0,
            BlockType::Frames => 1,
            BlockType::Notes => 2,
            BlockType::Walls => 3,
            BlockType::Heights => 4,
            BlockType::Pauses => 5,
        }
    }
}

/// Positional metadata about one section: where its tag byte stands in the
/// buffer, how many bytes the whole section spans (tag, count and records),
/// and how many records it holds.  It owns no record data and is only valid
/// against the buffer it was computed from.  The type parameter ties the
/// handle to the section kind it was computed for, so a handle can only be
/// materialized by that section's decoder.
#[derive(Debug)]
pub struct BlockIndex<T> {
    pos: u64,
    bytes: u64,
    items_count: i32,
    _phantom: core::marker::PhantomData<T>,
}

impl<T> BlockIndex<T> {
    /// The recorded start position of the section.
    pub closed spec fn spec_pos(&self) -> u64 {
        self.pos
    }

    /// The recorded byte length of the section.
    pub closed spec fn spec_bytes(&self) -> u64 {
        self.bytes
    }

    /// The recorded record count of the section.
    pub closed spec fn spec_len(&self) -> i32 {
        self.items_count
    }

    pub(crate) fn make(pos: u64, bytes: u64, items_count: i32) -> (r: BlockIndex<T>)
        ensures
            r.spec_pos() == pos,
            r.spec_bytes() == bytes,
            r.spec_len() == items_count,
    {
        BlockIndex { pos, bytes, items_count, _phantom: core::marker::PhantomData }
    }

    /// Returns the section's start position in the buffer.
    pub fn pos(&self) -> (r: u64)
        ensures
            r == self.spec_pos(),
    {
        self.pos
    }

    /// Returns the section's size in bytes.
    pub fn bytes(&self) -> (r: u64)
        ensures
            r == self.spec_bytes(),
    {
        self.bytes
    }

    /// Returns the section's record count.
    pub fn len(&self) -> (r: i32)
        ensures
            r == self.spec_len(),
    {
        self.items_count
    }

    /// Returns whether the section holds any records.
    pub fn is_empty(&self) -> (r: bool)
        ensures
            r == (self.spec_len() == 0),
    {
        self.items_count == 0
    }
}

/// Reads one byte and demands that it equals `tag`; on success yields the
/// position after the tag byte.
pub open spec fn spec_check_tag(b: Seq<u8>, pos: int, tag: u8) -> Result<int, BsorError> {
    match spec_read_byte(b, pos) {
        Err(e) => Err(e),
        Ok((v, p)) => if v != tag {
            Err(BsorError::InvalidBsor)
        } else {
            Ok(p)
        },
    }
}

/// Checks that the byte at the cursor is the tag of the expected section
/// kind; a mismatch is an invalid-format failure and consumes nothing.
pub fn assert_start_of_block(bytes: &Vec<u8>, pos: &mut usize, bt: BlockType) -> (r: Result<
    (),
    BsorError,
>)
    ensures
        match r {
            Ok(()) => spec_check_tag(bytes@, *old(pos) as int, bt.spec_tag()) == Ok::<
                _,
                BsorError,
            >(*final(pos) as int),
            Err(e) => spec_check_tag(bytes@, *old(pos) as int, bt.spec_tag()) == Err::<int, _>(e)
                && *final(pos) == *old(pos),
        },
{
    let start = *pos;
    let v = read_byte(bytes, pos)?;
    if v != bt.tag() {
        *pos = start;
        return Err(BsorError::InvalidBsor);
    }
    Ok(())
}

/// The mathematical value of one section handle.
pub ghost struct BlockV {
    pub pos: int,
    pub bytes: int,
    pub count: i32,
}

impl<T> View for BlockIndex<T> {
    type V = BlockV;

    closed spec fn view(&self) -> BlockV {
        BlockV { pos: self.pos as int, bytes: self.bytes as int, count: self.items_count }
    }
}

/// The fully decoded replay: the header version, the Info record, and the
/// five record sections, all materialized.
#[derive(Debug, PartialEq)]
pub struct Replay {
    pub version: u8,
    pub info: crate::info::Info,
    pub frames: crate::frame::Frames,
    pub notes: crate::note::Notes,
    pub walls: crate::wall::Walls,
    pub heights: crate::height::Heights,
    pub pauses: crate::pause::Pauses,
}

/// The mathematical value of a [`Replay`].
pub ghost struct ReplayV {
    pub version: u8,
    pub info: crate::info::InfoV,
    pub frames: Seq<crate::frame::Frame>,
    pub notes: Seq<crate::note::Note>,
    pub walls: Seq<crate::wall::Wall>,
    pub heights: Seq<crate::height::Height>,
    pub pauses: Seq<crate::pause::Pause>,
}

impl View for Replay {
    type V = ReplayV;

    open spec fn view(&self) -> ReplayV {
        ReplayV {
            version: self.version,
            info: self.info@,
            frames: self.frames@,
            notes: self.notes@,
            walls: self.walls@,
            heights: self.heights@,
            pauses: self.pauses@,
        }
    }
}

/// Reads a whole replay: header, Info, then the five record sections in the
/// fixed order.  The first failure anywhere aborts the whole load.
pub open spec fn spec_load_replay(b: Seq<u8>, pos: int) -> Result<(ReplayV, int), BsorError> {
    match crate::header::spec_load_header(b, pos) {
        Err(e) => Err(e),
        Ok((version, p1)) => match crate::info::spec_load_info(b, p1) {
            Err(e) => Err(e),
            Ok((info, p2)) => match crate::frame::spec_load_frames(b, p2) {
                Err(e) => Err(e),
                Ok((frames, p3)) => match crate::note::spec_load_notes(b, p3) {
                    Err(e) => Err(e),
                    Ok((notes, p4)) => match crate::wall::spec_load_walls(b, p4) {
                        Err(e) => Err(e),
                        Ok((walls, p5)) => match crate::height::spec_load_heights(b, p5) {
                            Err(e) => Err(e),
                            Ok((heights, p6)) => match crate::pause::spec_load_pauses(b, p6) {
                                Err(e) => Err(e),
                                Ok((pauses, p7)) => Ok(
                                    (
                                        ReplayV {
                                            version,
                                            info,
                                            frames,
                                            notes,
                                            walls,
                                            heights,
                                            pauses,
                                        },
                                        p7,
                                    ),
                                ),
                            },
                        },
                    },
                },
            },
        },
    }
}

/// The wire form of a whole replay.
pub open spec fn enc_replay(v: ReplayV) -> Seq<u8>
    recommends
        replay_wf(v),
{
    crate::header::enc_header(v.version) + crate::info::enc_info(v.info)
        + crate::frame::enc_frames(v.frames) + crate::note::enc_notes(v.notes)
        + crate::wall::enc_walls(v.walls) + crate::height::enc_heights(v.heights)
        + crate::pause::enc_pauses(v.pauses)
}

/// A replay whose wire form decodes back to it: the supported version, an
/// Info record within the format's limits, record counts that fit the
/// `i32` count fields, and per-record well-formedness where a record kind
/// has any.
pub open spec fn replay_wf(v: ReplayV) -> bool {
    &&& v.version == 1
    &&& crate::info::info_wf(v.info)
    &&& v.frames.len() <= i32::MAX
    &&& v.notes.len() <= i32::MAX
    &&& forall|i: int| 0 <= i < v.notes.len() ==> crate::note::note_wf(#[trigger] v.notes[i])
    &&& v.walls.len() <= i32::MAX
    &&& forall|i: int| 0 <= i < v.walls.len() ==> crate::wall::wall_wf(#[trigger] v.walls[i])
    &&& v.heights.len() <= i32::MAX
    &&& v.pauses.len() <= i32::MAX
}

impl Replay {
    /// Eagerly decodes a whole replay from the start of the buffer.  No
    /// partial replay is ever returned: the first failure aborts the load.
    #[verifier::rlimit(100)]
    #[verifier::spinoff_prover]
    pub fn load(bytes: &Vec<u8>) -> (r: Result<Replay, BsorError>)
        ensures
            match r {
                Ok(v) => spec_load_replay(bytes@, 0) matches Ok((w, n)) && w == v@,
                Err(e) => spec_load_replay(bytes@, 0) == Err::<(ReplayV, int), _>(e),
            },
    {
        let mut pos: usize = 0;
        let header = crate::header::Header::load(bytes, &mut pos)?;
        let info = crate::info::Info::load(bytes, &mut pos)?;
        let frames = crate::frame::Frames::load(bytes, &mut pos)?;
        let notes = crate::note::Notes::load(bytes, &mut pos)?;
        let walls = crate::wall::Walls::load(bytes, &mut pos)?;
        let heights = crate::height::Heights::load(bytes, &mut pos)?;
        let pauses = crate::pause::Pauses::load(bytes, &mut pos)?;
        Ok(Replay { version: header.version, info, frames, notes, walls, heights, pauses })
    }
}

/// Appends the wire form of a whole replay.
#[verifier::rlimit(100)]
#[verifier::spinoff_prover]
pub fn append_replay(out: &mut Vec<u8>, replay: &Replay)
    requires
        crate::info::info_wf(replay.info@),
        replay.frames@.len() <= i32::MAX,
        replay.notes@.len() <= i32::MAX,
        replay.walls@.len() <= i32::MAX,
        replay.heights@.len() <= i32::MAX,
        replay.pauses@.len() <= i32::MAX,
    ensures
        final(out)@ == old(out)@ + enc_replay(replay@),
{
    crate::header::append_header(out, replay.version);
    crate::info::append_info(out, &replay.info);
    crate::frame::append_frames(out, replay.frames.get_vec());
    crate::note::append_notes(out, replay.notes.get_vec());
    crate::wall::append_walls(out, replay.walls.get_vec());
    crate::height::append_heights(out, replay.heights.get_vec());
    crate::pause::append_pauses(out, replay.pauses.get_vec());
    proof {
        assert(out@ =~= old(out)@ + enc_replay(replay@));
    }
}

/// The replay index: the eagerly decoded version and Info, and one handle
/// for each of the five record sections.
#[derive(Debug)]
pub struct ReplayIndex {
    pub version: u8,
    pub info: crate::info::Info,
    pub frames: BlockIndex<crate::frame::Frames>,
    pub notes: BlockIndex<crate::note::Notes>,
    pub walls: BlockIndex<crate::wall::Walls>,
    pub heights: BlockIndex<crate::height::Heights>,
    pub pauses: BlockIndex<crate::pause::Pauses>,
}

/// The mathematical value of a [`ReplayIndex`].
pub ghost struct IndexV {
    pub version: u8,
    pub info: crate::info::InfoV,
    pub frames: BlockV,
    pub notes: BlockV,
    pub walls: BlockV,
    pub heights: BlockV,
    pub pauses: BlockV,
}

impl View for ReplayIndex {
    type V = IndexV;

    open spec fn view(&self) -> IndexV {
        IndexV {
            version: self.version,
            info: self.info@,
            frames: self.frames@,
            notes: self.notes@,
            walls: self.walls@,
            heights: self.heights@,
            pauses: self.pauses@,
        }
    }
}

/// The two-phase deferred decode: header and Info eagerly, then one size
/// scan per section, each section starting where the previous one ended.
pub open spec fn spec_index(b: Seq<u8>) -> Result<IndexV, BsorError> {
    match crate::header::spec_load_header(b, 0) {
        Err(e) => Err(e),
        Ok((version, p1)) => match crate::info::spec_load_info(b, p1) {
            Err(e) => Err(e),
            Ok((info, p2)) => match crate::frame::spec_scan_frames(b, p2) {
                Err(e) => Err(e),
                Ok((fc, fb)) => match crate::note::spec_scan_notes(b, p2 + fb) {
                    Err(e) => Err(e),
                    Ok((nc, nb)) => match crate::wall::spec_scan_walls(b, p2 + fb + nb) {
                        Err(e) => Err(e),
                        Ok((wc, wb)) => match crate::height::spec_scan_heights(
                            b,
                            p2 + fb + nb + wb,
                        ) {
                            Err(e) => Err(e),
                            Ok((hc, hb)) => match crate::pause::spec_scan_pauses(
                                b,
                                p2 + fb + nb + wb + hb,
                            ) {
                                Err(e) => Err(e),
                                Ok((pc, pb)) => Ok(
                                    IndexV {
                                        version,
                                        info,
                                        frames: BlockV { pos: p2, bytes: fb, count: fc },
                                        notes: BlockV { pos: p2 + fb, bytes: nb, count: nc },
                                        walls: BlockV { pos: p2 + fb + nb, bytes: wb, count: wc },
                                        heights: BlockV {
                                            pos: p2 + fb + nb + wb,
                                            bytes: hb,
                                            count: hc,
                                        },
                                        pauses: BlockV {
                                            pos: p2 + fb + nb + wb + hb,
                                            bytes: pb,
                                            count: pc,
                                        },
                                    },
                                ),
                            },
                        },
                    },
                },
            },
        },
    }
}

impl ReplayIndex {
    /// Indexes a replay: decodes the header and Info eagerly, then computes
    /// each section's handle and seeks past the section without touching its
    /// record bodies (other than the Notes event kinds).
    pub fn index(bytes: &Vec<u8>) -> (r: Result<ReplayIndex, BsorError>)
        ensures
            match r {
                Ok(ri) => spec_index(bytes@) == Ok::<_, BsorError>(ri@),
                Err(e) => spec_index(bytes@) == Err::<IndexV, _>(e),
            },
    {
        let blen = bytes.len();
        let mut pos: usize = 0;
        let header = crate::header::Header::load(bytes, &mut pos)?;
        let info = crate::info::Info::load(bytes, &mut pos)?;
        let frames_pos = pos as u64;
        let frames = crate::frame::Frames::load_real_block_size(bytes, &mut pos, frames_pos)?;

        let notes_pos = match frames_pos.checked_add(frames.bytes()) {
            Some(v) => v,
            None => {
                return Err(BsorError::Io);
            },
        };
        if notes_pos > usize::MAX as u64 {
            return Err(BsorError::Io);
        }
        pos = notes_pos as usize;
        let notes = crate::note::Notes::load_real_block_size(bytes, &mut pos, notes_pos)?;

        let walls_pos = match notes_pos.checked_add(notes.bytes()) {
            Some(v) => v,
            None => {
                return Err(BsorError::Io);
            },
        };
        if walls_pos > usize::MAX as u64 {
            return Err(BsorError::Io);
        }
        pos = walls_pos as usize;
        let walls = crate::wall::Walls::load_real_block_size(bytes, &mut pos, walls_pos)?;

        let heights_pos = match walls_pos.checked_add(walls.bytes()) {
            Some(v) => v,
            None => {
                return Err(BsorError::Io);
            },
        };
        if heights_pos > usize::MAX as u64 {
            return Err(BsorError::Io);
        }
        pos = heights_pos as usize;
        let heights = crate::height::Heights::load_real_block_size(bytes, &mut pos, heights_pos)?;

        let pauses_pos = match heights_pos.checked_add(heights.bytes()) {
            Some(v) => v,
            None => {
                return Err(BsorError::Io);
            },
        };
        if pauses_pos > usize::MAX as u64 {
            return Err(BsorError::Io);
        }
        pos = pauses_pos as usize;
        let pauses = crate::pause::Pauses::load_real_block_size(bytes, &mut pos, pauses_pos)?;

        Ok(ReplayIndex { version: header.version, info, frames, notes, walls, heights, pauses })
    }
}

/// Materializes one section from its previously computed handle.
pub trait LoadBlock {
    /// The materialized section collection.
    type Item: View;

    /// The value this handle materializes to on the given buffer, if any.
    spec fn spec_block_load(&self, b: Seq<u8>) -> Result<<Self::Item as View>::V, BsorError>;

    /// Seeks to the handle's recorded offset and runs the section's eager
    /// decode there, returning the fully decoded collection.
    fn load(&self, bytes: &Vec<u8>) -> (r: Result<Self::Item, BsorError>)
        ensures
            match r {
                Ok(v) => self.spec_block_load(bytes@) == Ok::<_, BsorError>(v@),
                Err(e) => self.spec_block_load(bytes@) matches Err(e2) && e == e2,
            },
    ;
}

impl LoadBlock for BlockIndex<crate::frame::Frames> {
    type Item = crate::frame::Frames;

    open spec fn spec_block_load(&self, b: Seq<u8>) -> Result<Seq<crate::frame::Frame>, BsorError> {
        match crate::frame::spec_load_frames(b, self.spec_pos() as int) {
            Ok((s, p)) => Ok(s),
            Err(e) => Err(e),
        }
    }

    fn load(&self, bytes: &Vec<u8>) -> (r: Result<crate::frame::Frames, BsorError>) {
        let blen = bytes.len();
        if self.pos() > usize::MAX as u64 {
            return Err(BsorError::Io);
        }
        let mut pos: usize = self.pos() as usize;
        crate::frame::Frames::load(bytes, &mut pos)
    }
}

impl LoadBlock for BlockIndex<crate::note::Notes> {
    type Item = crate::note::Notes;

    open spec fn spec_block_load(&self, b: Seq<u8>) -> Result<Seq<crate::note::Note>, BsorError> {
        match crate::note::spec_load_notes(b, self.spec_pos() as int) {
            Ok((s, p)) => Ok(s),
            Err(e) => Err(e),
        }
    }

    fn load(&self, bytes: &Vec<u8>) -> (r: Result<crate::note::Notes, BsorError>) {
        let blen = bytes.len();
        if self.pos() > usize::MAX as u64 {
            return Err(BsorError::Io);
        }
        let mut pos: usize = self.pos() as usize;
        crate::note::Notes::load(bytes, &mut pos)
    }
}

impl LoadBlock for BlockIndex<crate::wall::Walls> {
    type Item = crate::wall::Walls;

    open spec fn spec_block_load(&self, b: Seq<u8>) -> Result<Seq<crate::wall::Wall>, BsorError> {
        match crate::wall::spec_load_walls(b, self.spec_pos() as int) {
            Ok((s, p)) => Ok(s),
            Err(e) => Err(e),
        }
    }

    fn load(&self, bytes: &Vec<u8>) -> (r: Result<crate::wall::Walls, BsorError>) {
        let blen = bytes.len();
        if self.pos() > usize::MAX as u64 {
            return Err(BsorError::Io);
        }
        let mut pos: usize = self.pos() as usize;
        crate::wall::Walls::load(bytes, &mut pos)
    }
}

impl LoadBlock for BlockIndex<crate::height::Heights> {
    type Item = crate::height::Heights;

    open spec fn spec_block_load(&self, b: Seq<u8>) -> Result<
        Seq<crate::height::Height>,
        BsorError,
    > {
        match crate::height::spec_load_heights(b, self.spec_pos() as int) {
            Ok((s, p)) => Ok(s),
            Err(e) => Err(e),
        }
    }

    fn load(&self, bytes: &Vec<u8>) -> (r: Result<crate::height::Heights, BsorError>) {
        let blen = bytes.len();
        if self.pos() > usize::MAX as u64 {
            return Err(BsorError::Io);
        }
        let mut pos: usize = self.pos() as usize;
        crate::height::Heights::load(bytes, &mut pos)
    }
}

impl LoadBlock for BlockIndex<crate::pause::Pauses> {
    type Item = crate::pause::Pauses;

    open spec fn spec_block_load(&self, b: Seq<u8>) -> Result<Seq<crate::pause::Pause>, BsorError> {
        match crate::pause::spec_load_pauses(b, self.spec_pos() as int) {
            Ok((s, p)) => Ok(s),
            Err(e) => Err(e),
        }
    }

    fn load(&self, bytes: &Vec<u8>) -> (r: Result<crate::pause::Pauses, BsorError>) {
        let blen = bytes.len();
        if self.pos() > usize::MAX as u64 {
            return Err(BsorError::Io);
        }
        let mut pos: usize = self.pos() as usize;
        crate::pause::Pauses::load(bytes, &mut pos)
    }
}

/// The wire form of a replay splits at the section boundaries.
#[verifier::rlimit(100)]
#[verifier::spinoff_prover]
proof fn lemma_replay_enc_parts(b: Seq<u8>, pos: int, v: ReplayV)
    requires
        0 <= pos,
        pos + enc_replay(v).len() <= b.len(),
        b.subrange(pos, pos + enc_replay(v).len()) == enc_replay(v),
    ensures
        ({
            let a1 = crate::header::enc_header(v.version);
            let a2 = a1 + crate::info::enc_info(v.info);
            let a3 = a2 + crate::frame::enc_frames(v.frames);
            let a4 = a3 + crate::note::enc_notes(v.notes);
            let a5 = a4 + crate::wall::enc_walls(v.walls);
            let a6 = a5 + crate::height::enc_heights(v.heights);
            &&& b.subrange(pos, pos + a1.len()) == crate::header::enc_header(v.version)
            &&& b.subrange(pos + a1.len(), pos + a2.len()) == crate::info::enc_info(v.info)
            &&& b.subrange(pos + a2.len(), pos + a3.len()) == crate::frame::enc_frames(v.frames)
            &&& b.subrange(pos + a3.len(), pos + a4.len()) == crate::note::enc_notes(v.notes)
            &&& b.subrange(pos + a4.len(), pos + a5.len()) == crate::wall::enc_walls(v.walls)
            &&& b.subrange(pos + a5.len(), pos + a6.len()) == crate::height::enc_heights(v.heights)
            &&& b.subrange(pos + a6.len(), pos + enc_replay(v).len()) == crate::pause::enc_pauses(
                v.pauses,
            )
        }),
{
    let a1 = crate::header::enc_header(v.version);
    let a2 = a1 + crate::info::enc_info(v.info);
    let a3 = a2 + crate::frame::enc_frames(v.frames);
    let a4 = a3 + crate::note::enc_notes(v.notes);
    let a5 = a4 + crate::wall::enc_walls(v.walls);
    let a6 = a5 + crate::height::enc_heights(v.heights);
    crate::wire::lemma_seq_unconcat(b, pos, a6, crate::pause::enc_pauses(v.pauses));
    crate::wire::lemma_seq_unconcat(b, pos, a5, crate::height::enc_heights(v.heights));
    crate::wire::lemma_seq_unconcat(b, pos, a4, crate::wall::enc_walls(v.walls));
    crate::wire::lemma_seq_unconcat(b, pos, a3, crate::note::enc_notes(v.notes));
    crate::wire::lemma_seq_unconcat(b, pos, a2, crate::frame::enc_frames(v.frames));
    crate::wire::lemma_seq_unconcat(b, pos, a1, crate::info::enc_info(v.info));
}

/// A replay decode is the composition of its seven stage decodes.
proof fn lemma_replay_compose(b: Seq<u8>, pos: int, v: ReplayV, ps: (int, int, int, int, int, int, int))
    requires
        crate::header::spec_load_header(b, pos) == Ok::<_, BsorError>((v.version, ps.0)),
        crate::info::spec_load_info(b, ps.0) == Ok::<_, BsorError>((v.info, ps.1)),
        crate::frame::spec_load_frames(b, ps.1) == Ok::<_, BsorError>((v.frames, ps.2)),
        crate::note::spec_load_notes(b, ps.2) == Ok::<_, BsorError>((v.notes, ps.3)),
        crate::wall::spec_load_walls(b, ps.3) == Ok::<_, BsorError>((v.walls, ps.4)),
        crate::height::spec_load_heights(b, ps.4) == Ok::<_, BsorError>((v.heights, ps.5)),
        crate::pause::spec_load_pauses(b, ps.5) == Ok::<_, BsorError>((v.pauses, ps.6)),
    ensures
        spec_load_replay(b, pos) == Ok::<_, BsorError>((v, ps.6)),
{
}

/// The first three stages of decoding an encoded replay succeed.
#[verifier::rlimit(100)]
#[verifier::spinoff_prover]
proof fn lemma_replay_round_trip_head(b: Seq<u8>, pos: int, v: ReplayV)
    requires
        replay_wf(v),
        0 <= pos,
        pos + enc_replay(v).len() <= b.len(),
        b.subrange(pos, pos + enc_replay(v).len()) == enc_replay(v),
    ensures
        ({
            let a1 = crate::header::enc_header(v.version);
            let a2 = a1 + crate::info::enc_info(v.info);
            let a3 = a2 + crate::frame::enc_frames(v.frames);
            &&& crate::header::spec_load_header(b, pos) == Ok::<_, BsorError>((v.version, pos + 5))
            &&& crate::info::spec_load_info(b, pos + 5) == Ok::<_, BsorError>((
                v.info,
                pos + a2.len(),
            ))
            &&& crate::frame::spec_load_frames(b, pos + a2.len()) == Ok::<_, BsorError>((
                v.frames,
                pos + a3.len(),
            ))
        }),
{
    let a1 = crate::header::enc_header(v.version);
    let a2 = a1 + crate::info::enc_info(v.info);
    lemma_replay_enc_parts(b, pos, v);
    crate::header::lemma_header_round_trip(b, pos);
    crate::info::lemma_info_round_trip(b, pos + 5, v.info);
    crate::frame::lemma_frames_round_trip(b, pos + a2.len(), v.frames);
}

/// The last four stages of decoding an encoded replay succeed.
#[verifier::rlimit(100)]
#[verifier::spinoff_prover]
proof fn lemma_replay_round_trip_tail(b: Seq<u8>, pos: int, v: ReplayV)
    requires
        replay_wf(v),
        0 <= pos,
        pos + enc_replay(v).len() <= b.len(),
        b.subrange(pos, pos + enc_replay(v).len()) == enc_replay(v),
    ensures
        ({
            let a1 = crate::header::enc_header(v.version);
            let a2 = a1 + crate::info::enc_info(v.info);
            let a3 = a2 + crate::frame::enc_frames(v.frames);
            let a4 = a3 + crate::note::enc_notes(v.notes);
            let a5 = a4 + crate::wall::enc_walls(v.walls);
            let a6 = a5 + crate::height::enc_heights(v.heights);
            &&& crate::note::spec_load_notes(b, pos + a3.len()) == Ok::<_, BsorError>((
                v.notes,
                pos + a4.len(),
            ))
            &&& crate::wall::spec_load_walls(b, pos + a4.len()) == Ok::<_, BsorError>((
                v.walls,
                pos + a5.len(),
            ))
        }),
{
    let a1 = crate::header::enc_header(v.version);
    let a2 = a1 + crate::info::enc_info(v.info);
    let a3 = a2 + crate::frame::enc_frames(v.frames);
    let a4 = a3 + crate::note::enc_notes(v.notes);
    lemma_replay_enc_parts(b, pos, v);
    crate::note::lemma_notes_round_trip(b, pos + a3.len(), v.notes);
    crate::wall::lemma_walls_round_trip(b, pos + a4.len(), v.walls);
}

/// The last two stages of decoding an encoded replay succeed.
#[verifier::rlimit(100)]
#[verifier::spinoff_prover]
proof fn lemma_replay_round_trip_end(b: Seq<u8>, pos: int, v: ReplayV)
    requires
        replay_wf(v),
        0 <= pos,
        pos + enc_replay(v).len() <= b.len(),
        b.subrange(pos, pos + enc_replay(v).len()) == enc_replay(v),
    ensures
        ({
            let a1 = crate::header::enc_header(v.version);
            let a2 = a1 + crate::info::enc_info(v.info);
            let a3 = a2 + crate::frame::enc_frames(v.frames);
            let a4 = a3 + crate::note::enc_notes(v.notes);
            let a5 = a4 + crate::wall::enc_walls(v.walls);
            let a6 = a5 + crate::height::enc_heights(v.heights);
            &&& crate::height::spec_load_heights(b, pos + a5.len()) == Ok::<_, BsorError>((
                v.heights,
                pos + a6.len(),
            ))
            &&& crate::pause::spec_load_pauses(b, pos + a6.len()) == Ok::<_, BsorError>((
                v.pauses,
                pos + enc_replay(v).len(),
            ))
        }),
{
    let a1 = crate::header::enc_header(v.version);
    let a2 = a1 + crate::info::enc_info(v.info);
    let a3 = a2 + crate::frame::enc_frames(v.frames);
    let a4 = a3 + crate::note::enc_notes(v.notes);
    let a5 = a4 + crate::wall::enc_walls(v.walls);
    let a6 = a5 + crate::height::enc_heights(v.heights);
    lemma_replay_enc_parts(b, pos, v);
    crate::height::lemma_heights_round_trip(b, pos + a5.len(), v.heights);
    crate::pause::lemma_pauses_round_trip(b, pos + a6.len(), v.pauses);
}

/// Decoding the wire form of a well-formed replay gives back the replay, and
/// consumes exactly its wire form: both directions of the round trip.
#[verifier::rlimit(100)]
#[verifier::spinoff_prover]
pub proof fn lemma_replay_round_trip(b: Seq<u8>, pos: int, v: ReplayV)
    requires
        replay_wf(v),
        0 <= pos,
        pos + enc_replay(v).len() <= b.len(),
        b.subrange(pos, pos + enc_replay(v).len()) == enc_replay(v),
    ensures
        spec_load_replay(b, pos) == Ok::<_, BsorError>((v, pos + enc_replay(v).len())),
{
    let a1 = crate::header::enc_header(v.version);
    let a2 = a1 + crate::info::enc_info(v.info);
    let a3 = a2 + crate::frame::enc_frames(v.frames);
    let a4 = a3 + crate::note::enc_notes(v.notes);
    let a5 = a4 + crate::wall::enc_walls(v.walls);
    let a6 = a5 + crate::height::enc_heights(v.heights);
    lemma_replay_round_trip_head(b, pos, v);
    lemma_replay_round_trip_tail(b, pos, v);
    lemma_replay_round_trip_end(b, pos, v);
    lemma_replay_compose(
        b,
        pos,
        v,
        (
            pos + 5,
            pos + a2.len(),
            pos + a3.len(),
            pos + a4.len(),
            pos + a5.len(),
            pos + a6.len(),
            pos + enc_replay(v).len(),
        ),
    );
}

/// A buffer that is exactly the wire form of a well-formed replay decodes
/// back to that replay, consuming the whole buffer.  In particular, encoding
/// the decoded replay reproduces the buffer byte for byte.
#[verifier::rlimit(100)]
#[verifier::spinoff_prover]
pub proof fn lemma_replay_bytes_round_trip(v: ReplayV)
    requires
        replay_wf(v),
    ensures
        spec_load_replay(enc_replay(v), 0) == Ok::<_, BsorError>((
            v,
            enc_replay(v).len() as int,
        )),
{
    let b = enc_replay(v);
    assert(b.subrange(0, b.len() as int) =~= b);
    lemma_replay_round_trip(b, 0, v);
}

/// Whenever the eager load of a buffer succeeds, indexing it succeeds too,
/// yields the same version and Info, agrees with the eager decode on every
/// section's record count, lays the sections out contiguously, and its byte
/// lengths add up: five header bytes, the Info section
/// (`frames.pos - 5` bytes), and the five record sections together span
/// exactly the bytes the eager load consumed.  For a file with no trailing
/// bytes that sum is the total stream length.
#[verifier::rlimit(100)]
#[verifier::spinoff_prover]
pub proof fn lemma_index_agrees(b: Seq<u8>)
    ensures
        spec_load_replay(b, 0) matches Ok((v, n)) ==> (spec_index(b) matches Ok(idx) && {
            &&& idx.version == v.version
            &&& idx.info == v.info
            &&& idx.frames.count == v.frames.len() as i32
            &&& idx.notes.count == v.notes.len() as i32
            &&& idx.walls.count == v.walls.len() as i32
            &&& idx.heights.count == v.heights.len() as i32
            &&& idx.pauses.count == v.pauses.len() as i32
            &&& idx.notes.pos == idx.frames.pos + idx.frames.bytes
            &&& idx.walls.pos == idx.notes.pos + idx.notes.bytes
            &&& idx.heights.pos == idx.walls.pos + idx.walls.bytes
            &&& idx.pauses.pos == idx.heights.pos + idx.heights.bytes
            &&& 5 + (idx.frames.pos - 5) + idx.frames.bytes + idx.notes.bytes + idx.walls.bytes
                + idx.heights.bytes + idx.pauses.bytes == n
        }),
{
    if spec_load_replay(b, 0) is Ok {
        let p1 = 5;
        let (info, p2) = crate::info::spec_load_info(b, p1)->Ok_0;
        lemma_scans_agree_front(b, p2);
        let (frames, p3) = crate::frame::spec_load_frames(b, p2)->Ok_0;
        let (notes, p4) = crate::note::spec_load_notes(b, p3)->Ok_0;
        lemma_scans_agree_back(b, p4);
    }
}

/// The Frames and Notes scans agree with their eager decodes.
#[verifier::rlimit(100)]
#[verifier::spinoff_prover]
proof fn lemma_scans_agree_front(b: Seq<u8>, p2: int)
    ensures
        crate::frame::spec_load_frames(b, p2) matches Ok((frames, p3))
            ==> crate::frame::spec_scan_frames(b, p2) == Ok::<_, BsorError>((
            frames.len() as i32,
            p3 - p2,
        )) && (crate::note::spec_load_notes(b, p3) matches Ok((notes, p4))
            ==> crate::note::spec_scan_notes(b, p3) == Ok::<_, BsorError>((
            notes.len() as i32,
            p4 - p3,
        ))),
{
    if crate::frame::spec_load_frames(b, p2) is Ok {
        crate::frame::lemma_frames_scan_agrees(b, p2);
        let (frames, p3) = crate::frame::spec_load_frames(b, p2)->Ok_0;
        if crate::note::spec_load_notes(b, p3) is Ok {
            crate::note::lemma_notes_scan_agrees(b, p3);
        }
    }
}

/// The Walls, Heights and Pauses scans agree with their eager decodes.
#[verifier::rlimit(100)]
#[verifier::spinoff_prover]
proof fn lemma_scans_agree_back(b: Seq<u8>, p4: int)
    ensures
        crate::wall::spec_load_walls(b, p4) matches Ok((walls, p5))
            ==> crate::wall::spec_scan_walls(b, p4) == Ok::<_, BsorError>((
            walls.len() as i32,
            p5 - p4,
        )) && (crate::height::spec_load_heights(b, p5) matches Ok((heights, p6))
            ==> crate::height::spec_scan_heights(b, p5) == Ok::<_, BsorError>((
            heights.len() as i32,
            p6 - p5,
        )) && (crate::pause::spec_load_pauses(b, p6) matches Ok((pauses, p7))
            ==> crate::pause::spec_scan_pauses(b, p6) == Ok::<_, BsorError>((
            pauses.len() as i32,
            p7 - p6,
        )))),
{
    if crate::wall::spec_load_walls(b, p4) is Ok {
        crate::wall::lemma_walls_scan_agrees(b, p4);
        let (walls, p5) = crate::wall::spec_load_walls(b, p4)->Ok_0;
        if crate::height::spec_load_heights(b, p5) is Ok {
            crate::height::lemma_heights_scan_agrees(b, p5);
            let (heights, p6) = crate::height::spec_load_heights(b, p5)->Ok_0;
            if crate::pause::spec_load_pauses(b, p6) is Ok {
                crate::pause::lemma_pauses_scan_agrees(b, p6);
            }
        }
    }
}

/// A handle computed by the indexer materializes to exactly the records
/// the eager load finds: on any buffer whose eager load succeeds, decoding a
/// section at its handle's offset yields that section of the eager result.
#[verifier::rlimit(100)]
#[verifier::spinoff_prover]
pub proof fn lemma_materialize_agrees(b: Seq<u8>)
    ensures
        spec_load_replay(b, 0) matches Ok((v, n)) ==> (spec_index(b) matches Ok(idx) && {
            &&& (crate::frame::spec_load_frames(b, idx.frames.pos) matches Ok((s, p)) && s
                == v.frames)
            &&& (crate::note::spec_load_notes(b, idx.notes.pos) matches Ok((s, p)) && s == v.notes)
            &&& (crate::wall::spec_load_walls(b, idx.walls.pos) matches Ok((s, p)) && s == v.walls)
            &&& (crate::height::spec_load_heights(b, idx.heights.pos) matches Ok((s, p)) && s
                == v.heights)
            &&& (crate::pause::spec_load_pauses(b, idx.pauses.pos) matches Ok((s, p)) && s
                == v.pauses)
        }),
{
    if spec_load_replay(b, 0) is Ok {
        lemma_index_agrees(b);
        let (v, n) = spec_load_replay(b, 0)->Ok_0;
        let (info, p2) = crate::info::spec_load_info(b, 5)->Ok_0;
        lemma_scans_agree_front(b, p2);
        let (frames, p3) = crate::frame::spec_load_frames(b, p2)->Ok_0;
        let (notes, p4) = crate::note::spec_load_notes(b, p3)->Ok_0;
        lemma_scans_agree_back(b, p4);
        let (walls, p5) = crate::wall::spec_load_walls(b, p4)->Ok_0;
        let (heights, p6) = crate::height::spec_load_heights(b, p5)->Ok_0;
        let idx = spec_index(b)->Ok_0;
        assert(idx.frames.pos == p2);
        assert(idx.notes.pos == p3);
        assert(idx.walls.pos == p4);
        assert(idx.heights.pos == p5);
        assert(idx.pauses.pos == p6);
    }
}

} // verus!
