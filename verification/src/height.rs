//! The Heights section: player height changes over time.

use vstd::prelude::*;

use crate::error::BsorError;
use crate::read_utils::read_float;
use crate::replay::BlockIndex;
use crate::replay::BlockType;
use crate::replay::ReplayFloat;
use crate::replay::ReplayTime;
use crate::section::append_section_records;
use crate::section::enc_section;
use crate::section::load_section_records;
use crate::section::record_encoder;
use crate::section::record_reader;
use crate::section::scan_fixed;
use crate::section::spec_load_section;
use crate::section::spec_scan_fixed;
use crate::section::WireRecord;
use crate::wire::spec_read_u32;
use crate::wire::u32_to_le;
use crate::write_utils::append_float;

verus! {

/// One height record: the new height and when it applied (both raw float
/// bits).
#[derive(PartialEq, Eq, Structural, Clone, Copy, Debug)]
pub struct Height {
    pub height: ReplayFloat,
    pub time: ReplayTime,
}

impl WireRecord for Height {
    open spec fn spec_load(b: Seq<u8>, pos: int) -> Result<(Height, int), BsorError> {
        match spec_read_u32(b, pos) {
            Err(e) => Err(e),
            Ok((height, p1)) => match spec_read_u32(b, p1) {
                Err(e) => Err(e),
                Ok((time, p2)) => Ok((Height { height, time }, p2)),
            },
        }
    }

    /// The wire form of a [`Height`]: two little-endian 32-bit patterns.
    open spec fn spec_enc(self) -> Seq<u8> {
        u32_to_le(self.height) + u32_to_le(self.time)
    }

    fn load(bytes: &Vec<u8>, pos: &mut usize) -> (r: Result<Height, BsorError>) {
        let start = *pos;
        let height = read_float(bytes, pos)?;
        let time = match read_float(bytes, pos) {
            Ok(v) => v,
            Err(e) => {
                *pos = start;
                return Err(e);
            },
        };
        Ok(Height { height, time })
    }

    fn append(&self, out: &mut Vec<u8>) {
        append_float(out, self.height);
        append_float(out, self.time);
        proof {
            assert(out@ =~= old(out)@ + self.spec_enc());
        }
    }
}

impl Height {
    /// The fixed number of bytes a [`Height`] occupies on the wire.
    pub fn get_static_size() -> (r: usize)
        ensures
            r == 8,
            forall|h: Height| (#[trigger] h.spec_enc()).len() == r,
    {
        8
    }
}

/// Decoding the wire form of a [`Height`] gives back the record.
pub proof fn lemma_height_round_trip(b: Seq<u8>, pos: int, h: Height)
    requires
        0 <= pos,
        pos + 8 <= b.len(),
        b.subrange(pos, pos + 8) == h.spec_enc(),
    ensures
        Height::spec_load(b, pos) == Ok::<_, BsorError>((h, pos + 8)),
{
    crate::wire::lemma_u32_le_identity(h.height);
    crate::wire::lemma_u32_le_identity(h.time);
    let s1 = b.subrange(pos, pos + 4);
    let s2 = b.subrange(pos + 4, pos + 8);
    assert(b.subrange(pos, pos + 8) =~= s1 + s2);
    crate::wire::lemma_seq_parts2(s1, s2, u32_to_le(h.height), u32_to_le(h.time));
}

/// Decoding a [`Height`] consumes exactly the bytes its re-encoding yields.
pub proof fn lemma_height_exact(b: Seq<u8>, pos: int)
    ensures
        Height::spec_load(b, pos) matches Ok((h, p)) ==> 0 <= pos && p == pos + 8 && p <= b.len()
            && b.subrange(pos, p) == h.spec_enc(),
{
    if Height::spec_load(b, pos) is Ok {
        crate::wire::lemma_le_u32_identity(b.subrange(pos, pos + 4));
        crate::wire::lemma_le_u32_identity(b.subrange(pos + 4, pos + 8));
        assert(b.subrange(pos, pos + 8) =~= b.subrange(pos, pos + 4) + b.subrange(
            pos + 4,
            pos + 8,
        ));
    }
}

/// Reads the whole Heights section (tag 4).
pub open spec fn spec_load_heights(b: Seq<u8>, pos: int) -> Result<(Seq<Height>, int), BsorError> {
    spec_load_section(record_reader::<Height>(), b, pos, 4)
}

/// The wire form of the Heights section.
pub open spec fn enc_heights(s: Seq<Height>) -> Seq<u8>
    recommends
        s.len() <= i32::MAX,
{
    enc_section(record_encoder::<Height>(), 4, s)
}

/// The deferred size of the Heights section: `5 + count * 8`.
pub open spec fn spec_scan_heights(b: Seq<u8>, pos: int) -> Result<(i32, int), BsorError> {
    spec_scan_fixed(b, pos, 4, 8)
}

/// The ordered collection of all records of the Heights section.
#[derive(Debug, PartialEq)]
pub struct Heights(Vec<Height>);

impl View for Heights {
    type V = Seq<Height>;

    closed spec fn view(&self) -> Seq<Height> {
        self.0@
    }
}

impl Heights {
    /// Wraps an already decoded record list.
    pub fn new(vec: Vec<Height>) -> (r: Heights)
        ensures
            r@ == vec@,
    {
        Heights(vec)
    }

    /// Decodes the Heights section at the cursor.
    pub fn load(bytes: &Vec<u8>, pos: &mut usize) -> (r: Result<Heights, BsorError>)
        ensures
            match r {
                Ok(v) => spec_load_heights(bytes@, *old(pos) as int) == Ok::<_, BsorError>((
                    v@,
                    *final(pos) as int,
                )),
                Err(e) => spec_load_heights(bytes@, *old(pos) as int) == Err::<
                    (Seq<Height>, int),
                    _,
                >(e) && *final(pos) == *old(pos),
            },
    {
        let v = load_section_records::<Height>(bytes, pos, BlockType::Heights)?;
        Ok(Heights(v))
    }

    /// Decodes the Heights section that a previously computed handle points
    /// at; the decode is a fresh one, independent of any earlier decode.
    pub fn load_block(bytes: &Vec<u8>, block: &BlockIndex<Heights>) -> (r: Result<
        Heights,
        BsorError,
    >)
        ensures
            match r {
                Ok(v) => exists|p: int|
                    spec_load_heights(bytes@, block.spec_pos() as int) == Ok::<_, BsorError>((
                        v@,
                        p,
                    )),
                Err(e) => spec_load_heights(bytes@, block.spec_pos() as int) == Err::<
                    (Seq<Height>, int),
                    _,
                >(e) || block.spec_pos() > usize::MAX,
            },
    {
        if block.pos() > usize::MAX as u64 {
            return Err(BsorError::Io);
        }
        let mut pos: usize = block.pos() as usize;
        Self::load(bytes, &mut pos)
    }

    /// The decoded records, in wire order.
    pub fn get_vec(&self) -> (r: &Vec<Height>)
        ensures
            r@ == self@,
    {
        &self.0
    }

    /// The number of records.
    pub fn len(&self) -> (r: usize)
        ensures
            r == self@.len(),
    {
        self.0.len()
    }

    /// Whether the section holds no records.
    pub fn is_empty(&self) -> (r: bool)
        ensures
            r == (self@.len() == 0),
    {
        self.0.len() == 0
    }

    /// The envelope bytes of the section: tag plus count.
    pub fn get_static_size() -> (r: usize)
        ensures
            r == 5,
    {
        5
    }

    /// Computes the section's handle without visiting any record: reads tag
    /// and count, then takes the byte length from the fixed record width.
    pub fn load_real_block_size(bytes: &Vec<u8>, pos: &mut usize, at: u64) -> (r: Result<
        BlockIndex<Heights>,
        BsorError,
    >)
        ensures
            match r {
                Ok(idx) => idx.spec_pos() == at && spec_scan_heights(bytes@, *old(pos) as int)
                    == Ok::<_, BsorError>((idx.spec_len(), idx.spec_bytes() as int)) && *final(pos)
                    == *old(pos) + 5,
                Err(e) => spec_scan_heights(bytes@, *old(pos) as int) == Err::<(i32, int), _>(e)
                    && *final(pos) == *old(pos),
            },
    {
        let (count, size) = scan_fixed(bytes, pos, BlockType::Heights, 8)?;
        Ok(BlockIndex::make(at, size, count))
    }
}

/// Appends the wire form of one [`Height`].
pub fn append_height(out: &mut Vec<u8>, h: &Height)
    ensures
        final(out)@ == old(out)@ + h.spec_enc(),
{
    h.append(out);
}

/// Appends the wire form of the whole Heights section.
pub fn append_heights(out: &mut Vec<u8>, heights: &Vec<Height>)
    requires
        heights@.len() <= i32::MAX,
    ensures
        final(out)@ == old(out)@ + enc_heights(heights@),
{
    append_section_records(out, BlockType::Heights, heights);
}

/// Every well-formed encoded Heights section decodes back to its records,
/// and a Heights section that decodes consumed exactly the wire form of the
/// records it yields.
pub proof fn lemma_heights_round_trip(b: Seq<u8>, pos: int, s: Seq<Height>)
    requires
        s.len() <= i32::MAX,
        0 <= pos,
        pos + enc_heights(s).len() <= b.len(),
        b.subrange(pos, pos + enc_heights(s).len()) == enc_heights(s),
    ensures
        spec_load_heights(b, pos) == Ok::<_, BsorError>((s, pos + enc_heights(s).len())),
{
    let f = record_reader::<Height>();
    let enc = record_encoder::<Height>();
    assert forall|p: int, v: Height|
        0 <= p && p + enc(v).len() <= b.len() && #[trigger] b.subrange(p, p + enc(v).len()) == enc(
            v,
        ) implies f(b, p) == Ok::<_, BsorError>((v, p + enc(v).len())) by {
        assert(enc(v) == v.spec_enc());
        lemma_height_round_trip(b, p, v);
        assert(f(b, p) == Height::spec_load(b, p));
    }
    crate::section::lemma_section_round_trip(
        f,
        enc,
        |v: Height| true,
        b,
        pos,
        4,
        s,
    );
}

/// A Heights section that decodes consumed exactly the wire form of the
/// records it yields.
pub proof fn lemma_heights_exact(b: Seq<u8>, pos: int)
    ensures
        spec_load_heights(b, pos) matches Ok((s, p2)) ==> s.len() <= i32::MAX && 0 <= pos && pos + 5
            <= p2 <= b.len() && b.subrange(pos, p2) == enc_heights(s),
{
    let f = record_reader::<Height>();
    let enc = record_encoder::<Height>();
    assert forall|p: int| #[trigger] f(b, p) matches Ok((v, pe)) ==> (0 <= p && p <= pe
        <= b.len() && b.subrange(p, pe) == enc(v)) by {
        lemma_height_exact(b, p);
        assert(f(b, p) == Height::spec_load(b, p));
        if f(b, p) is Ok {
            let (v, pe) = f(b, p)->Ok_0;
            assert(enc(v) == v.spec_enc());
        }
    }
    crate::section::lemma_section_exact(f, enc, b, pos, 4);
}

/// The deferred size of the Heights section equals the number of bytes its
/// eager decode consumes.
pub proof fn lemma_heights_scan_agrees(b: Seq<u8>, pos: int)
    ensures
        spec_load_heights(b, pos) matches Ok((s, p2)) ==> spec_scan_heights(b, pos) == Ok::<
            _,
            BsorError,
        >((s.len() as i32, p2 - pos)),
{
    let f = record_reader::<Height>();
    assert forall|p: int| #[trigger] f(b, p) matches Ok((v, pe)) ==> pe == p + 8 by {
        lemma_height_exact(b, p);
        assert(f(b, p) == Height::spec_load(b, p));
    }
    crate::section::lemma_scan_fixed_agrees(f, b, pos, 4, 8);
}

} // verus!
