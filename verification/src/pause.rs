//! The Pauses section: pauses of the recording, with duration and time.

use vstd::prelude::*;

use crate::error::BsorError;
use crate::read_utils::read_float;
use crate::read_utils::read_long;
use crate::replay::BlockIndex;
use crate::replay::BlockType;
use crate::replay::ReplayLong;
use crate::replay::ReplayTime;
use crate::section::append_section_records;
use crate::section::enc_section;
use crate::section::load_section_records;
use crate::section::record_encoder;
use crate::section::record_reader;
use crate::section::scan_fixed;
use crate::section::spec_load_section;
use crate::section::spec_scan_fixed;
use crate::section::WireRecord;
use crate::wire::spec_read_long;
use crate::wire::spec_read_u32;
use crate::wire::u32_to_le;
use crate::wire::u64_to_le;
use crate::write_utils::append_float;
use crate::write_utils::append_long;

verus! {

/// One pause record: how long the pause lasted and when it happened.
#[derive(PartialEq, Eq, Structural, Clone, Copy, Debug)]
pub struct Pause {
    pub duration: ReplayLong,
    pub time: ReplayTime,
}

impl WireRecord for Pause {
    open spec fn spec_load(b: Seq<u8>, pos: int) -> Result<(Pause, int), BsorError> {
        match spec_read_long(b, pos) {
            Err(e) => Err(e),
            Ok((duration, p1)) => match spec_read_u32(b, p1) {
                Err(e) => Err(e),
                Ok((time, p2)) => Ok((Pause { duration, time }, p2)),
            },
        }
    }

    /// The wire form of a [`Pause`]: a little-endian `u64` then a 32-bit
    /// float pattern.
    open spec fn spec_enc(self) -> Seq<u8> {
        u64_to_le(self.duration) + u32_to_le(self.time)
    }

    fn load(bytes: &Vec<u8>, pos: &mut usize) -> (r: Result<Pause, BsorError>) {
        let start = *pos;
        let duration = read_long(bytes, pos)?;
        let time = match read_float(bytes, pos) {
            Ok(v) => v,
            Err(e) => {
                *pos = start;
                return Err(e);
            },
        };
        Ok(Pause { duration, time })
    }

    fn append(&self, out: &mut Vec<u8>) {
        append_long(out, self.duration);
        append_float(out, self.time);
        proof {
            assert(out@ =~= old(out)@ + self.spec_enc());
        }
    }
}

impl Pause {
    /// The fixed number of bytes a [`Pause`] occupies on the wire.
    pub fn get_static_size() -> (r: usize)
        ensures
            r == 12,
            forall|p: Pause| (#[trigger] p.spec_enc()).len() == r,
    {
        12
    }
}

/// Decoding the wire form of a [`Pause`] gives back the record.
pub proof fn lemma_pause_round_trip(b: Seq<u8>, pos: int, v: Pause)
    requires
        0 <= pos,
        pos + 12 <= b.len(),
        b.subrange(pos, pos + 12) == v.spec_enc(),
    ensures
        Pause::spec_load(b, pos) == Ok::<_, BsorError>((v, pos + 12)),
{
    crate::wire::lemma_u64_le_identity(v.duration);
    crate::wire::lemma_u32_le_identity(v.time);
    let s1 = b.subrange(pos, pos + 8);
    let s2 = b.subrange(pos + 8, pos + 12);
    assert(b.subrange(pos, pos + 12) =~= s1 + s2);
    crate::wire::lemma_seq_parts2(s1, s2, u64_to_le(v.duration), u32_to_le(v.time));
}

/// Decoding a [`Pause`] consumes exactly the bytes its re-encoding yields.
pub proof fn lemma_pause_exact(b: Seq<u8>, pos: int)
    ensures
        Pause::spec_load(b, pos) matches Ok((v, p)) ==> 0 <= pos && p == pos + 12 && p <= b.len()
            && b.subrange(pos, p) == v.spec_enc(),
{
    if Pause::spec_load(b, pos) is Ok {
        crate::wire::lemma_le_u64_identity(b.subrange(pos, pos + 8));
        crate::wire::lemma_le_u32_identity(b.subrange(pos + 8, pos + 12));
        assert(b.subrange(pos, pos + 12) =~= b.subrange(pos, pos + 8) + b.subrange(
            pos + 8,
            pos + 12,
        ));
    }
}

/// Reads the whole Pauses section (tag 5).
pub open spec fn spec_load_pauses(b: Seq<u8>, pos: int) -> Result<(Seq<Pause>, int), BsorError> {
    spec_load_section(record_reader::<Pause>(), b, pos, 5)
}

/// The wire form of the Pauses section.
pub open spec fn enc_pauses(s: Seq<Pause>) -> Seq<u8>
    recommends
        s.len() <= i32::MAX,
{
    enc_section(record_encoder::<Pause>(), 5, s)
}

/// The deferred size of the Pauses section: `5 + count * 12`.
pub open spec fn spec_scan_pauses(b: Seq<u8>, pos: int) -> Result<(i32, int), BsorError> {
    spec_scan_fixed(b, pos, 5, 12)
}

/// The ordered collection of all records of the Pauses section.
#[derive(Debug, PartialEq)]
pub struct Pauses(Vec<Pause>);

impl View for Pauses {
    type V = Seq<Pause>;

    closed spec fn view(&self) -> Seq<Pause> {
        self.0@
    }
}

impl Pauses {
    /// Wraps an already decoded record list.
    pub fn new(vec: Vec<Pause>) -> (r: Pauses)
        ensures
            r@ == vec@,
    {
        Pauses(vec)
    }

    /// Decodes the Pauses section at the cursor.
    pub fn load(bytes: &Vec<u8>, pos: &mut usize) -> (r: Result<Pauses, BsorError>)
        ensures
            match r {
                Ok(v) => spec_load_pauses(bytes@, *old(pos) as int) == Ok::<_, BsorError>((
                    v@,
                    *final(pos) as int,
                )),
                Err(e) => spec_load_pauses(bytes@, *old(pos) as int) == Err::<(Seq<Pause>, int), _>(
                    e,
                ) && *final(pos) == *old(pos),
            },
    {
        let v = load_section_records::<Pause>(bytes, pos, BlockType::Pauses)?;
        Ok(Pauses(v))
    }

    /// Decodes the Pauses section that a previously computed handle points
    /// at; the decode is a fresh one, independent of any earlier decode.
    pub fn load_block(bytes: &Vec<u8>, block: &BlockIndex<Pauses>) -> (r: Result<
        Pauses,
        BsorError,
    >)
        ensures
            match r {
                Ok(v) => exists|p: int|
                    spec_load_pauses(bytes@, block.spec_pos() as int) == Ok::<_, BsorError>((
                        v@,
                        p,
                    )),
                Err(e) => spec_load_pauses(bytes@, block.spec_pos() as int) == Err::<
                    (Seq<Pause>, int),
                    _,
                >(e) || block.spec_pos() > usize::MAX,
            },
    {
        if block.pos() > usize::MAX as u64 {
            return Err(BsorError::Io);
        }
        let mut pos: usize = block.pos() as usize;
        Self::load(bytes, &mut pos)
    }

    /// The decoded records, in wire order.
    pub fn get_vec(&self) -> (r: &Vec<Pause>)
        ensures
            r@ == self@,
    {
        &self.0
    }

    /// The number of records.
    pub fn len(&self) -> (r: usize)
        ensures
            r == self@.len(),
    {
        self.0.len()
    }

    /// Whether the section holds no records.
    pub fn is_empty(&self) -> (r: bool)
        ensures
            r == (self@.len() == 0),
    {
        self.0.len() == 0
    }

    /// The envelope bytes of the section: tag plus count.
    pub fn get_static_size() -> (r: usize)
        ensures
            r == 5,
    {
        5
    }

    /// Computes the section's handle without visiting any record: reads tag
    /// and count, then takes the byte length from the fixed record width.
    pub fn load_real_block_size(bytes: &Vec<u8>, pos: &mut usize, at: u64) -> (r: Result<
        BlockIndex<Pauses>,
        BsorError,
    >)
        ensures
            match r {
                Ok(idx) => idx.spec_pos() == at && spec_scan_pauses(bytes@, *old(pos) as int)
                    == Ok::<_, BsorError>((idx.spec_len(), idx.spec_bytes() as int)) && *final(pos)
                    == *old(pos) + 5,
                Err(e) => spec_scan_pauses(bytes@, *old(pos) as int) == Err::<(i32, int), _>(e)
                    && *final(pos) == *old(pos),
            },
    {
        let (count, size) = scan_fixed(bytes, pos, BlockType::Pauses, 12)?;
        Ok(BlockIndex::make(at, size, count))
    }
}

/// Appends the wire form of one [`Pause`].
pub fn append_pause(out: &mut Vec<u8>, v: &Pause)
    ensures
        final(out)@ == old(out)@ + v.spec_enc(),
{
    v.append(out);
}

/// Appends the wire form of the whole Pauses section.
pub fn append_pauses(out: &mut Vec<u8>, pauses: &Vec<Pause>)
    requires
        pauses@.len() <= i32::MAX,
    ensures
        final(out)@ == old(out)@ + enc_pauses(pauses@),
{
    append_section_records(out, BlockType::Pauses, pauses);
}

/// Every well-formed encoded Pauses section decodes back to its records.
pub proof fn lemma_pauses_round_trip(b: Seq<u8>, pos: int, s: Seq<Pause>)
    requires
        s.len() <= i32::MAX,
        0 <= pos,
        pos + enc_pauses(s).len() <= b.len(),
        b.subrange(pos, pos + enc_pauses(s).len()) == enc_pauses(s),
    ensures
        spec_load_pauses(b, pos) == Ok::<_, BsorError>((s, pos + enc_pauses(s).len())),
{
    let f = record_reader::<Pause>();
    let enc = record_encoder::<Pause>();
    assert forall|p: int, v: Pause|
        0 <= p && p + enc(v).len() <= b.len() && #[trigger] b.subrange(p, p + enc(v).len()) == enc(
            v,
        ) implies f(b, p) == Ok::<_, BsorError>((v, p + enc(v).len())) by {
        assert(enc(v) == v.spec_enc());
        lemma_pause_round_trip(b, p, v);
        assert(f(b, p) == Pause::spec_load(b, p));
    }
    crate::section::lemma_section_round_trip(f, enc, |v: Pause| true, b, pos, 5, s);
}

/// A Pauses section that decodes consumed exactly the wire form of the
/// records it yields.
pub proof fn lemma_pauses_exact(b: Seq<u8>, pos: int)
    ensures
        spec_load_pauses(b, pos) matches Ok((s, p2)) ==> s.len() <= i32::MAX && 0 <= pos && pos + 5
            <= p2 <= b.len() && b.subrange(pos, p2) == enc_pauses(s),
{
    let f = record_reader::<Pause>();
    let enc = record_encoder::<Pause>();
    assert forall|p: int| #[trigger] f(b, p) matches Ok((v, pe)) ==> (0 <= p && p <= pe <= b.len()
        && b.subrange(p, pe) == enc(v)) by {
        lemma_pause_exact(b, p);
        assert(f(b, p) == Pause::spec_load(b, p));
        if f(b, p) is Ok {
            let (v, pe) = f(b, p)->Ok_0;
            assert(enc(v) == v.spec_enc());
        }
    }
    crate::section::lemma_section_exact(f, enc, b, pos, 5);
}

/// The deferred size of the Pauses section equals the number of bytes its
/// eager decode consumes.
pub proof fn lemma_pauses_scan_agrees(b: Seq<u8>, pos: int)
    ensures
        spec_load_pauses(b, pos) matches Ok((s, p2)) ==> spec_scan_pauses(b, pos) == Ok::<
            _,
            BsorError,
        >((s.len() as i32, p2 - pos)),
{
    let f = record_reader::<Pause>();
    assert forall|p: int| #[trigger] f(b, p) matches Ok((v, pe)) ==> pe == p + 12 by {
        lemma_pause_exact(b, p);
        assert(f(b, p) == Pause::spec_load(b, p));
    }
    crate::section::lemma_scan_fixed_agrees(f, b, pos, 5, 12);
}

} // verus!
