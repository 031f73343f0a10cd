//! The Notes section: the variant-width record kind.
//!
//! A note's on-disk width depends on its event kind: the sixteen-byte head
//! (packed id, two times, event kind) is always present, and a 72-byte cut
//! information record follows exactly when the event kind is Good or Bad.
//! The deferred size scan therefore has to visit every record, but it only
//! reads each record's event kind and skips the rest.

use vstd::prelude::*;

use crate::error::BsorError;
use crate::read_utils::read_bool;
use crate::read_utils::read_float;
use crate::read_utils::read_int;
use crate::replay::BlockIndex;
use crate::replay::BlockType;
use crate::replay::LineValue;
use crate::replay::ReplayFloat;
use crate::replay::ReplayTime;
use crate::section::append_section_records;
use crate::section::enc_section;
use crate::section::load_section_records;
use crate::section::record_encoder;
use crate::section::record_reader;
use crate::section::spec_load_list;
use crate::section::spec_load_section;
use crate::section::WireRecord;
use crate::vector::append_vector3;
use crate::vector::enc_vector3;
use crate::vector::spec_load_vector3;
use crate::vector::Vector3;
use crate::wire::bool_byte;
use crate::wire::i32_to_le;
use crate::wire::spec_read_bool;
use crate::wire::spec_read_int;
use crate::wire::spec_read_u32;
use crate::wire::tdiv;
use crate::wire::tdiv_i32;
use crate::wire::tmod;
use crate::wire::tmod_i32;
use crate::wire::u32_to_le;
use crate::wire::wrap8;
use crate::wire::wrap8_i32;
use crate::write_utils::append_bool;
use crate::write_utils::append_float;
use crate::write_utils::append_int;

verus! {

/// How a note was resolved.  Unknown stands for any code outside the table;
/// decoding an event kind never fails.
#[derive(Debug, Clone, Copy, PartialEq, Eq, Structural)]
pub enum NoteEventType {
    Good,
    Bad,
    Miss,
    Bomb,
    Unknown,
}

impl NoteEventType {
    /// The code this kind re-encodes to; Unknown re-encodes to 255.
    pub open spec fn spec_code(self) -> u8 {
        match self {
            NoteEventType::Good => 0,
            NoteEventType::Bad => 1,
            NoteEventType::Miss => 2,
            NoteEventType::Bomb => 3,
            NoteEventType::Unknown => 255,
        }
    }

    /// The kind a wire code decodes to.
    pub open spec fn spec_from_code(v: i32) -> NoteEventType {
        if v == 0 {
            NoteEventType::Good
        } else if v == 1 {
            NoteEventType::Bad
        } else if v == 2 {
            NoteEventType::Miss
        } else if v == 3 {
            NoteEventType::Bomb
        } else {
            NoteEventType::Unknown
        }
    }

    /// Returns the code this kind re-encodes to.
    pub fn code(self) -> (r: u8)
        ensures
            r == self.spec_code(),
    {
        match self {
            NoteEventType::Good => 0,
            NoteEventType::Bad => 1,
            NoteEventType::Miss => 2,
            NoteEventType::Bomb => 3,
            NoteEventType::Unknown => 255,
        }
    }

    /// Decodes a wire code; out-of-table codes decode to Unknown.
    pub fn from_code(v: i32) -> (r: NoteEventType)
        ensures
            r == NoteEventType::spec_from_code(v),
    {
        if v == 0 {
            NoteEventType::Good
        } else if v == 1 {
            NoteEventType::Bad
        } else if v == 2 {
            NoteEventType::Miss
        } else if v == 3 {
            NoteEventType::Bomb
        } else {
            NoteEventType::Unknown
        }
    }
}

/// How a note is scored.  Unknown stands for any code outside the table.
#[derive(Debug, Clone, Copy, PartialEq, Eq, Structural)]
pub enum NoteScoringType {
    NormalOld,
    Ignore,
    NoScore,
    Normal,
    SliderHead,
    SliderTail,
    BurstSliderHead,
    BurstSliderElement,
    Unknown,
}

impl NoteScoringType {
    /// The code this kind re-encodes to; Unknown re-encodes to 255.
    pub open spec fn spec_code(self) -> u8 {
        match self {
            NoteScoringType::NormalOld => 0,
            NoteScoringType::Ignore => 1,
            NoteScoringType::NoScore => 2,
            NoteScoringType::Normal => 3,
            NoteScoringType::SliderHead => 4,
            NoteScoringType::SliderTail => 5,
            NoteScoringType::BurstSliderHead => 6,
            NoteScoringType::BurstSliderElement => 7,
            NoteScoringType::Unknown => 255,
        }
    }

    /// The kind a wire code decodes to.
    pub open spec fn spec_from_code(v: u8) -> NoteScoringType {
        if v == 0 {
            NoteScoringType::NormalOld
        } else if v == 1 {
            NoteScoringType::Ignore
        } else if v == 2 {
            NoteScoringType::NoScore
        } else if v == 3 {
            NoteScoringType::Normal
        } else if v == 4 {
            NoteScoringType::SliderHead
        } else if v == 5 {
            NoteScoringType::SliderTail
        } else if v == 6 {
            NoteScoringType::BurstSliderHead
        } else if v == 7 {
            NoteScoringType::BurstSliderElement
        } else {
            NoteScoringType::Unknown
        }
    }

    /// Returns the code this kind re-encodes to.
    pub fn code(self) -> (r: u8)
        ensures
            r == self.spec_code(),
    {
        match self {
            NoteScoringType::NormalOld => 0,
            NoteScoringType::Ignore => 1,
            NoteScoringType::NoScore => 2,
            NoteScoringType::Normal => 3,
            NoteScoringType::SliderHead => 4,
            NoteScoringType::SliderTail => 5,
            NoteScoringType::BurstSliderHead => 6,
            NoteScoringType::BurstSliderElement => 7,
            NoteScoringType::Unknown => 255,
        }
    }

    /// Decodes a wire code; out-of-table codes decode to Unknown.
    pub fn from_code(v: u8) -> (r: NoteScoringType)
        ensures
            r == NoteScoringType::spec_from_code(v),
    {
        if v == 0 {
            NoteScoringType::NormalOld
        } else if v == 1 {
            NoteScoringType::Ignore
        } else if v == 2 {
            NoteScoringType::NoScore
        } else if v == 3 {
            NoteScoringType::Normal
        } else if v == 4 {
            NoteScoringType::SliderHead
        } else if v == 5 {
            NoteScoringType::SliderTail
        } else if v == 6 {
            NoteScoringType::BurstSliderHead
        } else if v == 7 {
            NoteScoringType::BurstSliderElement
        } else {
            NoteScoringType::Unknown
        }
    }
}

/// The direction a note asked to be cut in.  Unknown stands for any code
/// outside the table.
#[derive(Debug, Clone, Copy, PartialEq, Eq, Structural)]
pub enum CutDirection {
    TopCenter,
    BottomCenter,
    MiddleLeft,
    MiddleRight,
    TopLeft,
    TopRight,
    BottomLeft,
    BottomRight,
    Dot,
    Unknown,
}

impl CutDirection {
    /// The code this direction re-encodes to; Unknown re-encodes to 255.
    pub open spec fn spec_code(self) -> u8 {
        match self {
            CutDirection::TopCenter => 0,
            CutDirection::BottomCenter => 1,
            CutDirection::MiddleLeft => 2,
            CutDirection::MiddleRight => 3,
            CutDirection::TopLeft => 4,
            CutDirection::TopRight => 5,
            CutDirection::BottomLeft => 6,
            CutDirection::BottomRight => 7,
            CutDirection::Dot => 8,
            CutDirection::Unknown => 255,
        }
    }

    /// The direction a wire code decodes to.
    pub open spec fn spec_from_code(v: u8) -> CutDirection {
        if v == 0 {
            CutDirection::TopCenter
        } else if v == 1 {
            CutDirection::BottomCenter
        } else if v == 2 {
            CutDirection::MiddleLeft
        } else if v == 3 {
            CutDirection::MiddleRight
        } else if v == 4 {
            CutDirection::TopLeft
        } else if v == 5 {
            CutDirection::TopRight
        } else if v == 6 {
            CutDirection::BottomLeft
        } else if v == 7 {
            CutDirection::BottomRight
        } else if v == 8 {
            CutDirection::Dot
        } else {
            CutDirection::Unknown
        }
    }

    /// Returns the code this direction re-encodes to.
    pub fn code(self) -> (r: u8)
        ensures
            r == self.spec_code(),
    {
        match self {
            CutDirection::TopCenter => 0,
            CutDirection::BottomCenter => 1,
            CutDirection::MiddleLeft => 2,
            CutDirection::MiddleRight => 3,
            CutDirection::TopLeft => 4,
            CutDirection::TopRight => 5,
            CutDirection::BottomLeft => 6,
            CutDirection::BottomRight => 7,
            CutDirection::Dot => 8,
            CutDirection::Unknown => 255,
        }
    }

    /// Decodes a wire code; out-of-table codes decode to Unknown.
    pub fn from_code(v: u8) -> (r: CutDirection)
        ensures
            r == CutDirection::spec_from_code(v),
    {
        if v == 0 {
            CutDirection::TopCenter
        } else if v == 1 {
            CutDirection::BottomCenter
        } else if v == 2 {
            CutDirection::MiddleLeft
        } else if v == 3 {
            CutDirection::MiddleRight
        } else if v == 4 {
            CutDirection::TopLeft
        } else if v == 5 {
            CutDirection::TopRight
        } else if v == 6 {
            CutDirection::BottomLeft
        } else if v == 7 {
            CutDirection::BottomRight
        } else if v == 8 {
            CutDirection::Dot
        } else {
            CutDirection::Unknown
        }
    }
}

/// A saber (and note) color.  Unknown stands for any code outside the table.
#[derive(Debug, Clone, Copy, PartialEq, Eq, Structural)]
pub enum ColorType {
    Red,
    Blue,
    Unknown,
}

impl ColorType {
    /// The code this color re-encodes to; Unknown re-encodes to 255.
    pub open spec fn spec_code(self) -> u8 {
        match self {
            ColorType::Red => 0,
            ColorType::Blue => 1,
            ColorType::Unknown => 255,
        }
    }

    /// The color a wire code decodes to.
    pub open spec fn spec_from_code(v: u8) -> ColorType {
        if v == 0 {
            ColorType::Red
        } else if v == 1 {
            ColorType::Blue
        } else {
            ColorType::Unknown
        }
    }

    /// Returns the code this color re-encodes to.
    pub fn code(self) -> (r: u8)
        ensures
            r == self.spec_code(),
    {
        match self {
            ColorType::Red => 0,
            ColorType::Blue => 1,
            ColorType::Unknown => 255,
        }
    }

    /// Decodes a wire code; out-of-table codes decode to Unknown.
    pub fn from_code(v: u8) -> (r: ColorType)
        ensures
            r == ColorType::spec_from_code(v),
    {
        if v == 0 {
            ColorType::Red
        } else if v == 1 {
            ColorType::Blue
        } else {
            ColorType::Unknown
        }
    }
}

/// How a note was cut; present exactly for Good and Bad events.
#[derive(PartialEq, Eq, Structural, Clone, Copy, Debug)]
pub struct NoteCutInfo {
    pub speed_ok: bool,
    pub direction_ok: bool,
    pub saber_type_ok: bool,
    pub was_cut_too_soon: bool,
    pub saber_speed: ReplayFloat,
    pub saber_dir: Vector3,
    pub saber_type: ColorType,
    pub time_deviation: ReplayFloat,
    pub cut_dir_deviation: ReplayFloat,
    pub cut_point: Vector3,
    pub cut_normal: Vector3,
    pub cut_distance_to_center: ReplayFloat,
    pub cut_angle: ReplayFloat,
    pub before_cut_rating: ReplayFloat,
    pub after_cut_rating: ReplayFloat,
}

/// Reads a [`NoteCutInfo`] record: four flag bytes, then the saber, cut
/// geometry and rating fields.
pub open spec fn spec_load_cut_info(b: Seq<u8>, pos: int) -> Result<(NoteCutInfo, int), BsorError> {
    match spec_read_bool(b, pos) {
        Err(e) => Err(e),
        Ok((speed_ok, p1)) => match spec_read_bool(b, p1) {
            Err(e) => Err(e),
            Ok((direction_ok, p2)) => match spec_read_bool(b, p2) {
                Err(e) => Err(e),
                Ok((saber_type_ok, p3)) => match spec_read_bool(b, p3) {
                    Err(e) => Err(e),
                    Ok((was_cut_too_soon, p4)) => match spec_read_u32(b, p4) {
                        Err(e) => Err(e),
                        Ok((saber_speed, p5)) => match spec_load_vector3(b, p5) {
                            Err(e) => Err(e),
                            Ok((saber_dir, p6)) => match spec_read_int(b, p6) {
                                Err(e) => Err(e),
                                Ok((saber_code, p7)) => match spec_read_u32(b, p7) {
                                    Err(e) => Err(e),
                                    Ok((time_deviation, p8)) => match spec_read_u32(b, p8) {
                                        Err(e) => Err(e),
                                        Ok((cut_dir_deviation, p9)) => match spec_load_vector3(
                                            b,
                                            p9,
                                        ) {
                                            Err(e) => Err(e),
                                            Ok((cut_point, p10)) => match spec_load_vector3(
                                                b,
                                                p10,
                                            ) {
                                                Err(e) => Err(e),
                                                Ok((cut_normal, p11)) => match spec_read_u32(
                                                    b,
                                                    p11,
                                                ) {
                                                    Err(e) => Err(e),
                                                    Ok(
                                                        (cut_distance_to_center, p12),
                                                    ) => match spec_read_u32(b, p12) {
                                                        Err(e) => Err(e),
                                                        Ok((cut_angle, p13)) => match spec_read_u32(
                                                            b,
                                                            p13,
                                                        ) {
                                                            Err(e) => Err(e),
                                                            Ok(
                                                                (before_cut_rating, p14),
                                                            ) => match spec_read_u32(b, p14) {
                                                                Err(e) => Err(e),
                                                                Ok(
                                                                    (after_cut_rating, p15),
                                                                ) => Ok(
                                                                    (
                                                                        NoteCutInfo {
                                                                            speed_ok,
                                                                            direction_ok,
                                                                            saber_type_ok,
                                                                            was_cut_too_soon,
                                                                            saber_speed,
                                                                            saber_dir,
                                                                            saber_type:
                                                                                ColorType::spec_from_code(
                                                                                wrap8(
                                                                                    saber_code as int,
                                                                                ),
                                                                            ),
                                                                            time_deviation,
                                                                            cut_dir_deviation,
                                                                            cut_point,
                                                                            cut_normal,
                                                                            cut_distance_to_center,
                                                                            cut_angle,
                                                                            before_cut_rating,
                                                                            after_cut_rating,
                                                                        },
                                                                        p15,
                                                                    ),
                                                                ),
                                                            },
                                                        },
                                                    },
                                                },
                                            },
                                        },
                                    },
                                },
                            },
                        },
                    },
                },
            },
        },
    }
}

/// The wire form of a [`NoteCutInfo`]: 72 bytes.
pub open spec fn enc_cut_info(c: NoteCutInfo) -> Seq<u8> {
    seq![
        bool_byte(c.speed_ok),
        bool_byte(c.direction_ok),
        bool_byte(c.saber_type_ok),
        bool_byte(c.was_cut_too_soon),
    ] + u32_to_le(c.saber_speed) + enc_vector3(c.saber_dir) + i32_to_le(c.saber_type.spec_code()
        as i32) + u32_to_le(c.time_deviation) + u32_to_le(c.cut_dir_deviation) + enc_vector3(
        c.cut_point,
    ) + enc_vector3(c.cut_normal) + u32_to_le(c.cut_distance_to_center) + u32_to_le(c.cut_angle)
        + u32_to_le(c.before_cut_rating) + u32_to_le(c.after_cut_rating)
}

impl NoteCutInfo {
    /// Decodes a [`NoteCutInfo`] at the cursor.
    pub fn load(bytes: &Vec<u8>, pos: &mut usize) -> (r: Result<NoteCutInfo, BsorError>)
        ensures
            match r {
                Ok(v) => spec_load_cut_info(bytes@, *old(pos) as int) == Ok::<_, BsorError>((
                    v,
                    *final(pos) as int,
                )),
                Err(e) => spec_load_cut_info(bytes@, *old(pos) as int) == Err::<
                    (NoteCutInfo, int),
                    _,
                >(e) && *final(pos) == *old(pos),
            },
    {
        let start = *pos;
        match Self::load_inner(bytes, pos) {
            Ok(v) => Ok(v),
            Err(e) => {
                *pos = start;
                Err(e)
            },
        }
    }

    /// The decode chain itself; on failure the cursor is left mid-record and
    /// the caller restores it.
    fn load_inner(bytes: &Vec<u8>, pos: &mut usize) -> (r: Result<NoteCutInfo, BsorError>)
        ensures
            match r {
                Ok(v) => spec_load_cut_info(bytes@, *old(pos) as int) == Ok::<_, BsorError>((
                    v,
                    *final(pos) as int,
                )),
                Err(e) => spec_load_cut_info(bytes@, *old(pos) as int) == Err::<
                    (NoteCutInfo, int),
                    _,
                >(e),
            },
    {
        let speed_ok = read_bool(bytes, pos)?;
        let direction_ok = read_bool(bytes, pos)?;
        let saber_type_ok = read_bool(bytes, pos)?;
        let was_cut_too_soon = read_bool(bytes, pos)?;
        let saber_speed = read_float(bytes, pos)?;
        let saber_dir = Vector3::load(bytes, pos)?;
        let saber_code = read_int(bytes, pos)?;
        let saber_type = ColorType::from_code(wrap8_i32(saber_code));
        let time_deviation = read_float(bytes, pos)?;
        let cut_dir_deviation = read_float(bytes, pos)?;
        let cut_point = Vector3::load(bytes, pos)?;
        let cut_normal = Vector3::load(bytes, pos)?;
        let cut_distance_to_center = read_float(bytes, pos)?;
        let cut_angle = read_float(bytes, pos)?;
        let before_cut_rating = read_float(bytes, pos)?;
        let after_cut_rating = read_float(bytes, pos)?;
        Ok(
            NoteCutInfo {
                speed_ok,
                direction_ok,
                saber_type_ok,
                was_cut_too_soon,
                saber_speed,
                saber_dir,
                saber_type,
                time_deviation,
                cut_dir_deviation,
                cut_point,
                cut_normal,
                cut_distance_to_center,
                cut_angle,
                before_cut_rating,
                after_cut_rating,
            },
        )
    }

    /// The fixed number of bytes a [`NoteCutInfo`] occupies on the wire.
    pub fn get_static_size() -> (r: usize)
        ensures
            r == 72,
            forall|c: NoteCutInfo| (#[trigger] enc_cut_info(c)).len() == r,
    {
        72
    }
}

/// Appends the wire form of a [`NoteCutInfo`].
pub fn append_note_cut_info(out: &mut Vec<u8>, c: &NoteCutInfo)
    ensures
        final(out)@ == old(out)@ + enc_cut_info(*c),
{
    append_bool(out, c.speed_ok);
    append_bool(out, c.direction_ok);
    append_bool(out, c.saber_type_ok);
    append_bool(out, c.was_cut_too_soon);
    append_float(out, c.saber_speed);
    append_vector3(out, &c.saber_dir);
    append_int(out, c.saber_type.code() as i32);
    append_float(out, c.time_deviation);
    append_float(out, c.cut_dir_deviation);
    append_vector3(out, &c.cut_point);
    append_vector3(out, &c.cut_normal);
    append_float(out, c.cut_distance_to_center);
    append_float(out, c.cut_angle);
    append_float(out, c.before_cut_rating);
    append_float(out, c.after_cut_rating);
    proof {
        assert(out@ =~= old(out)@ + enc_cut_info(*c));
    }
}

/// A decoded [`NoteCutInfo`] always spans exactly 72 bytes.
pub proof fn lemma_cut_info_width(b: Seq<u8>, pos: int)
    ensures
        spec_load_cut_info(b, pos) matches Ok((c, p)) ==> 0 <= pos && p == pos + 72 && p <= b.len(),
{
}

/// Decoding the wire form of a [`NoteCutInfo`] gives back the record.
#[verifier::rlimit(100)]
#[verifier::spinoff_prover]
pub proof fn lemma_cut_info_round_trip(b: Seq<u8>, pos: int, c: NoteCutInfo)
    requires
        0 <= pos,
        pos + 72 <= b.len(),
        b.subrange(pos, pos + 72) == enc_cut_info(c),
    ensures
        spec_load_cut_info(b, pos) == Ok::<_, BsorError>((c, pos + 72)),
{
    let flags = seq![
        bool_byte(c.speed_ok),
        bool_byte(c.direction_ok),
        bool_byte(c.saber_type_ok),
        bool_byte(c.was_cut_too_soon),
    ];
    let p1 = u32_to_le(c.saber_speed);
    let p2 = enc_vector3(c.saber_dir);
    let p3 = i32_to_le(c.saber_type.spec_code() as i32);
    let p4 = u32_to_le(c.time_deviation);
    let p5 = u32_to_le(c.cut_dir_deviation);
    let p6 = enc_vector3(c.cut_point);
    let p7 = enc_vector3(c.cut_normal);
    let p8 = u32_to_le(c.cut_distance_to_center);
    let p9 = u32_to_le(c.cut_angle);
    let p10 = u32_to_le(c.before_cut_rating);
    let p11 = u32_to_le(c.after_cut_rating);
    crate::wire::lemma_u32_le_identity(c.saber_speed);
    crate::wire::lemma_i32_le_identity(c.saber_type.spec_code() as i32);
    crate::wire::lemma_u32_le_identity(c.time_deviation);
    crate::wire::lemma_u32_le_identity(c.cut_dir_deviation);
    crate::wire::lemma_u32_le_identity(c.cut_distance_to_center);
    crate::wire::lemma_u32_le_identity(c.cut_angle);
    crate::wire::lemma_u32_le_identity(c.before_cut_rating);
    crate::wire::lemma_u32_le_identity(c.after_cut_rating);
    let a0 = flags;
    let a1 = a0 + p1;
    let a2 = a1 + p2;
    let a3 = a2 + p3;
    let a4 = a3 + p4;
    let a5 = a4 + p5;
    let a6 = a5 + p6;
    let a7 = a6 + p7;
    let a8 = a7 + p8;
    let a9 = a8 + p9;
    let a10 = a9 + p10;
    crate::wire::lemma_seq_unconcat(b, pos, a10, p11);
    crate::wire::lemma_seq_unconcat(b, pos, a9, p10);
    crate::wire::lemma_seq_unconcat(b, pos, a8, p9);
    crate::wire::lemma_seq_unconcat(b, pos, a7, p8);
    crate::wire::lemma_seq_unconcat(b, pos, a6, p7);
    crate::wire::lemma_seq_unconcat(b, pos, a5, p6);
    crate::wire::lemma_seq_unconcat(b, pos, a4, p5);
    crate::wire::lemma_seq_unconcat(b, pos, a3, p4);
    crate::wire::lemma_seq_unconcat(b, pos, a2, p3);
    crate::wire::lemma_seq_unconcat(b, pos, a1, p2);
    crate::wire::lemma_seq_unconcat(b, pos, a0, p1);
    crate::vector::lemma_vector3_round_trip(b, pos + 8, c.saber_dir);
    crate::vector::lemma_vector3_round_trip(b, pos + 32, c.cut_point);
    crate::vector::lemma_vector3_round_trip(b, pos + 44, c.cut_normal);
    assert(b.subrange(pos, pos + 4) == flags);
    assert(b[pos] == flags[0] && b[pos + 1] == flags[1] && b[pos + 2] == flags[2] && b[pos + 3]
        == flags[3]);
    assert(wrap8(c.saber_type.spec_code() as i32 as int) == c.saber_type.spec_code());
    assert(ColorType::spec_from_code(c.saber_type.spec_code()) == c.saber_type);
}

/// One note record.  The head packs five sub-fields into one `i32` by place
/// values (`scoring*10000 + line*1000 + layer*100 + color*10 + cutDirection`)
/// and carries two times and the event kind; a [`NoteCutInfo`] tail follows
/// exactly when the event kind is Good or Bad.
#[derive(PartialEq, Eq, Structural, Clone, Copy, Debug)]
pub struct Note {
    pub scoring_type: NoteScoringType,
    pub line_idx: LineValue,
    pub line_layer: u8,
    pub color_type: ColorType,
    pub cut_direction: CutDirection,
    pub event_time: ReplayTime,
    pub spawn_time: ReplayTime,
    pub event_type: NoteEventType,
    pub cut_info: Option<NoteCutInfo>,
}

/// The packed identifier a note re-encodes to.
pub open spec fn note_id(n: Note) -> i32 {
    (n.scoring_type.spec_code() * 10000 + n.line_idx * 1000 + n.line_layer * 100
        + n.color_type.spec_code() * 10 + n.cut_direction.spec_code()) as i32
}

impl WireRecord for Note {
    open spec fn spec_load(b: Seq<u8>, pos: int) -> Result<(Note, int), BsorError> {
        match spec_read_int(b, pos) {
            Err(e) => Err(e),
            Ok((id, p1)) => match spec_read_u32(b, p1) {
                Err(e) => Err(e),
                Ok((event_time, p2)) => match spec_read_u32(b, p2) {
                    Err(e) => Err(e),
                    Ok((spawn_time, p3)) => match spec_read_int(b, p3) {
                        Err(e) => Err(e),
                        Ok((event_code, p4)) => {
                            let event_type = NoteEventType::spec_from_code(event_code);
                            let head = Note {
                                scoring_type: NoteScoringType::spec_from_code(
                                    wrap8(tdiv(id as int, 10000)),
                                ),
                                line_idx: wrap8(tdiv(tmod(id as int, 10000), 1000)),
                                line_layer: wrap8(tdiv(tmod(tmod(id as int, 10000), 1000), 100)),
                                color_type: ColorType::spec_from_code(
                                    wrap8(tdiv(tmod(tmod(tmod(id as int, 10000), 1000), 100), 10)),
                                ),
                                cut_direction: CutDirection::spec_from_code(
                                    wrap8(tmod(tmod(tmod(tmod(id as int, 10000), 1000), 100), 10)),
                                ),
                                event_time,
                                spawn_time,
                                event_type,
                                cut_info: None,
                            };
                            if event_type == NoteEventType::Good || event_type
                                == NoteEventType::Bad {
                                match spec_load_cut_info(b, p4) {
                                    Err(e) => Err(e),
                                    Ok((ci, p5)) => Ok(
                                        (Note { cut_info: Some(ci), ..head }, p5),
                                    ),
                                }
                            } else {
                                Ok((head, p4))
                            }
                        },
                    },
                },
            },
        }
    }

    /// The wire form of a [`Note`]: the sixteen-byte head, then the cut
    /// information tail when one is present.
    open spec fn spec_enc(self) -> Seq<u8> {
        i32_to_le(note_id(self)) + u32_to_le(self.event_time) + u32_to_le(self.spawn_time)
            + i32_to_le(self.event_type.spec_code() as i32) + (match self.cut_info {
            Some(ci) => enc_cut_info(ci),
            None => Seq::empty(),
        })
    }

    #[verifier::rlimit(100)]
    #[verifier::spinoff_prover]
    fn load(bytes: &Vec<u8>, pos: &mut usize) -> (r: Result<Note, BsorError>) {
        let start = *pos;
        let id = read_int(bytes, pos)?;
        let scoring_type = NoteScoringType::from_code(wrap8_i32(tdiv_i32(id, 10000)));
        let r1 = tmod_i32(id, 10000);
        let line_idx = wrap8_i32(tdiv_i32(r1, 1000));
        let r2 = tmod_i32(r1, 1000);
        let line_layer = wrap8_i32(tdiv_i32(r2, 100));
        let r3 = tmod_i32(r2, 100);
        let color_type = ColorType::from_code(wrap8_i32(tdiv_i32(r3, 10)));
        let r4 = tmod_i32(r3, 10);
        let cut_direction = CutDirection::from_code(wrap8_i32(r4));
        let event_time = match read_float(bytes, pos) {
            Ok(v) => v,
            Err(e) => {
                *pos = start;
                return Err(e);
            },
        };
        let spawn_time = match read_float(bytes, pos) {
            Ok(v) => v,
            Err(e) => {
                *pos = start;
                return Err(e);
            },
        };
        let event_code = match read_int(bytes, pos) {
            Ok(v) => v,
            Err(e) => {
                *pos = start;
                return Err(e);
            },
        };
        let event_type = NoteEventType::from_code(event_code);
        let cut_info = match event_type {
            NoteEventType::Good | NoteEventType::Bad => {
                match NoteCutInfo::load(bytes, pos) {
                    Ok(ci) => Some(ci),
                    Err(e) => {
                        *pos = start;
                        return Err(e);
                    },
                }
            },
            _ => None,
        };
        Ok(
            Note {
                scoring_type,
                line_idx,
                line_layer,
                color_type,
                cut_direction,
                event_time,
                spawn_time,
                event_type,
                cut_info,
            },
        )
    }

    fn append(&self, out: &mut Vec<u8>) {
        let id: i32 = (self.scoring_type.code() as i32) * 10000 + (self.line_idx as i32) * 1000 + (
        self.line_layer as i32) * 100 + (self.color_type.code() as i32) * 10
            + (self.cut_direction.code() as i32);
        append_int(out, id);
        append_float(out, self.event_time);
        append_float(out, self.spawn_time);
        append_int(out, self.event_type.code() as i32);
        match &self.cut_info {
            Some(ci) => {
                append_note_cut_info(out, ci);
            },
            None => (),
        }
        proof {
            assert(out@ =~= old(out)@ + self.spec_enc());
        }
    }
}

impl Note {
    /// The number of bytes every [`Note`] head occupies on the wire.
    pub fn get_static_size() -> (r: usize)
        ensures
            r == 16,
    {
        16
    }

    /// The deferred width computation for one note: skip the twelve bytes
    /// before the event kind, read it, and report the record's full width
    /// without decoding anything else.  On success the cursor stands just
    /// after the event kind.
    pub fn get_total_block_size(bytes: &Vec<u8>, pos: &mut usize) -> (r: Result<u64, BsorError>)
        ensures
            match r {
                Ok(w) => spec_scan_note(bytes@, *old(pos) as int) == Ok::<_, BsorError>(w as int)
                    && *final(pos) == *old(pos) + 16,
                Err(e) => spec_scan_note(bytes@, *old(pos) as int) == Err::<int, _>(e)
                    && *final(pos) == *old(pos),
            },
    {
        let start = *pos;
        if bytes.len() < 16 || *pos > bytes.len() - 16 {
            return Err(BsorError::Io);
        }
        *pos = *pos + 12;
        let event_code = match read_int(bytes, pos) {
            Ok(v) => v,
            Err(e) => {
                *pos = start;
                return Err(e);
            },
        };
        let event_type = NoteEventType::from_code(event_code);
        let w: u64 = match event_type {
            NoteEventType::Good | NoteEventType::Bad => 16 + 72,
            _ => 16,
        };
        Ok(w)
    }
}

/// The deferred width of the note at `pos`: the event kind is read from the
/// four bytes twelve bytes in, everything else is skipped.
pub open spec fn spec_scan_note(b: Seq<u8>, pos: int) -> Result<int, BsorError> {
    match spec_read_int(b, pos + 12) {
        Err(e) => Err(e),
        Ok((event_code, _p)) => {
            let event_type = NoteEventType::spec_from_code(event_code);
            if event_type == NoteEventType::Good || event_type == NoteEventType::Bad {
                Ok(88)
            } else {
                Ok(16)
            }
        },
    }
}

/// Scans `n` consecutive notes, adding up their widths; yields the position
/// after the last one.
pub open spec fn spec_scan_note_list(b: Seq<u8>, pos: int, n: int) -> Result<int, BsorError>
    decreases n,
{
    if n <= 0 {
        Ok(pos)
    } else {
        match spec_scan_note(b, pos) {
            Err(e) => Err(e),
            Ok(w) => spec_scan_note_list(b, pos + w, n - 1),
        }
    }
}

/// The deferred size of the Notes section: tag and count, then one width
/// scan per record.
pub open spec fn spec_scan_notes(b: Seq<u8>, pos: int) -> Result<(i32, int), BsorError> {
    match crate::replay::spec_check_tag(b, pos, 2) {
        Err(e) => Err(e),
        Ok(p1) => match spec_read_int(b, p1) {
            Err(e) => Err(e),
            Ok((count, p2)) => if count < 0 {
                Err(BsorError::Io)
            } else {
                match spec_scan_note_list(b, p2, count as int) {
                    Err(e) => Err(e),
                    Ok(end) => Ok((count, end - pos)),
                }
            },
        },
    }
}

/// A note whose re-encoded identifier and event kind decompose back to the
/// same fields: the line index, layer, color and cut direction must stay
/// within their decimal digit, and the cut information tail must be present
/// exactly for Good and Bad events.
pub open spec fn note_wf(n: Note) -> bool {
    &&& n.line_idx <= 9
    &&& n.line_layer <= 9
    &&& n.color_type.spec_code() <= 9
    &&& n.cut_direction.spec_code() <= 9
    &&& (n.cut_info is Some <==> (n.event_type == NoteEventType::Good || n.event_type
        == NoteEventType::Bad))
}

/// A decoded [`Note`] carries a cut information tail exactly when its event
/// kind is Good or Bad: never for Miss, Bomb or Unknown.
pub proof fn lemma_note_cut_info_presence(b: Seq<u8>, pos: int)
    ensures
        Note::spec_load(b, pos) matches Ok((n, p)) ==> (n.cut_info is Some <==> (n.event_type
            == NoteEventType::Good || n.event_type == NoteEventType::Bad)),
{
}

/// A decoded [`Note`] spans sixteen bytes, or 88 with a cut information
/// tail.
pub proof fn lemma_note_width(b: Seq<u8>, pos: int)
    ensures
        Note::spec_load(b, pos) matches Ok((n, p)) ==> 0 <= pos && p <= b.len() && (if n.cut_info
            is Some {
            p == pos + 88
        } else {
            p == pos + 16
        }),
{
    if Note::spec_load(b, pos) is Ok {
        lemma_cut_info_width(b, pos + 16);
    }
}

/// Decoding the wire form of a well-formed [`Note`] gives back the record.
#[verifier::rlimit(100)]
#[verifier::spinoff_prover]
pub proof fn lemma_note_round_trip(b: Seq<u8>, pos: int, n: Note)
    requires
        note_wf(n),
        0 <= pos,
        pos + n.spec_enc().len() <= b.len(),
        b.subrange(pos, pos + n.spec_enc().len()) == n.spec_enc(),
    ensures
        Note::spec_load(b, pos) == Ok::<_, BsorError>((n, pos + n.spec_enc().len())),
{
    crate::wire::lemma_i32_le_identity(note_id(n));
    crate::wire::lemma_u32_le_identity(n.event_time);
    crate::wire::lemma_u32_le_identity(n.spawn_time);
    crate::wire::lemma_i32_le_identity(n.event_type.spec_code() as i32);
    let h1 = i32_to_le(note_id(n));
    let h2 = u32_to_le(n.event_time);
    let h3 = u32_to_le(n.spawn_time);
    let h4 = i32_to_le(n.event_type.spec_code() as i32);
    let tail = match n.cut_info {
        Some(ci) => enc_cut_info(ci),
        None => Seq::<u8>::empty(),
    };
    crate::wire::lemma_seq_unconcat(b, pos, h1 + h2 + h3 + h4, tail);
    crate::wire::lemma_seq_unconcat(b, pos, h1 + h2 + h3, h4);
    crate::wire::lemma_seq_unconcat(b, pos, h1 + h2, h3);
    crate::wire::lemma_seq_unconcat(b, pos, h1, h2);
    let s = n.scoring_type.spec_code() as int;
    let l = n.line_idx as int;
    let ly = n.line_layer as int;
    let c = n.color_type.spec_code() as int;
    let d = n.cut_direction.spec_code() as int;
    let rr1 = l * 1000 + ly * 100 + c * 10 + d;
    let rr2 = ly * 100 + c * 10 + d;
    let rr3 = c * 10 + d;
    let id = note_id(n) as int;
    assert(id == s * 10000 + rr1);
    assert(id >= 0);
    assert(id / 10000 == s && id % 10000 == rr1) by (nonlinear_arith)
        requires
            id == s * 10000 + rr1,
            0 <= rr1 < 10000,
            0 <= s,
    ;
    assert(tdiv(id, 10000) == s && tmod(id, 10000) == rr1);
    assert(rr1 / 1000 == l && rr1 % 1000 == rr2) by (nonlinear_arith)
        requires
            rr1 == l * 1000 + rr2,
            0 <= rr2 < 1000,
            0 <= l,
    ;
    assert(tdiv(rr1, 1000) == l && tmod(rr1, 1000) == rr2);
    assert(rr2 / 100 == ly && rr2 % 100 == rr3) by (nonlinear_arith)
        requires
            rr2 == ly * 100 + rr3,
            0 <= rr3 < 100,
            0 <= ly,
    ;
    assert(tdiv(rr2, 100) == ly && tmod(rr2, 100) == rr3);
    assert(rr3 / 10 == c && rr3 % 10 == d) by (nonlinear_arith)
        requires
            rr3 == c * 10 + d,
            0 <= d < 10,
            0 <= c,
    ;
    assert(tdiv(rr3, 10) == c && tmod(rr3, 10) == d);
    assert(wrap8(s) == n.scoring_type.spec_code());
    assert(NoteScoringType::spec_from_code(n.scoring_type.spec_code()) == n.scoring_type);
    assert(ColorType::spec_from_code(n.color_type.spec_code()) == n.color_type);
    assert(CutDirection::spec_from_code(n.cut_direction.spec_code()) == n.cut_direction);
    assert(NoteEventType::spec_from_code(n.event_type.spec_code() as i32) == n.event_type);
    if n.cut_info is Some {
        lemma_cut_info_round_trip(b, pos + 16, n.cut_info->0);
    }
}

/// Reads the whole Notes section (tag 2).
pub open spec fn spec_load_notes(b: Seq<u8>, pos: int) -> Result<(Seq<Note>, int), BsorError> {
    spec_load_section(record_reader::<Note>(), b, pos, 2)
}

/// The wire form of the Notes section.
pub open spec fn enc_notes(s: Seq<Note>) -> Seq<u8>
    recommends
        s.len() <= i32::MAX,
{
    enc_section(record_encoder::<Note>(), 2, s)
}

/// The ordered collection of all records of the Notes section.
#[derive(Debug, PartialEq)]
pub struct Notes(Vec<Note>);

impl View for Notes {
    type V = Seq<Note>;

    closed spec fn view(&self) -> Seq<Note> {
        self.0@
    }
}

impl Notes {
    /// Wraps an already decoded record list.
    pub fn new(vec: Vec<Note>) -> (r: Notes)
        ensures
            r@ == vec@,
    {
        Notes(vec)
    }

    /// Decodes the Notes section at the cursor.
    pub fn load(bytes: &Vec<u8>, pos: &mut usize) -> (r: Result<Notes, BsorError>)
        ensures
            match r {
                Ok(v) => spec_load_notes(bytes@, *old(pos) as int) == Ok::<_, BsorError>((
                    v@,
                    *final(pos) as int,
                )),
                Err(e) => spec_load_notes(bytes@, *old(pos) as int) == Err::<(Seq<Note>, int), _>(e)
                    && *final(pos) == *old(pos),
            },
    {
        let v = load_section_records::<Note>(bytes, pos, BlockType::Notes)?;
        Ok(Notes(v))
    }

    /// Decodes the Notes section that a previously computed handle points
    /// at; the decode is a fresh one, independent of any earlier decode.
    pub fn load_block(bytes: &Vec<u8>, block: &BlockIndex<Notes>) -> (r: Result<Notes, BsorError>)
        ensures
            match r {
                Ok(v) => exists|p: int|
                    spec_load_notes(bytes@, block.spec_pos() as int) == Ok::<_, BsorError>((v@, p)),
                Err(e) => spec_load_notes(bytes@, block.spec_pos() as int) == Err::<
                    (Seq<Note>, int),
                    _,
                >(e) || block.spec_pos() > usize::MAX,
            },
    {
        if block.pos() > usize::MAX as u64 {
            return Err(BsorError::Io);
        }
        let mut pos: usize = block.pos() as usize;
        Self::load(bytes, &mut pos)
    }

    /// The decoded records, in wire order.
    pub fn get_vec(&self) -> (r: &Vec<Note>)
        ensures
            r@ == self@,
    {
        &self.0
    }

    /// The number of records.
    pub fn len(&self) -> (r: usize)
        ensures
            r == self@.len(),
    {
        self.0.len()
    }

    /// Whether the section holds no records.
    pub fn is_empty(&self) -> (r: bool)
        ensures
            r == (self@.len() == 0),
    {
        self.0.len() == 0
    }

    /// The envelope bytes of the section: tag plus count.
    pub fn get_static_size() -> (r: usize)
        ensures
            r == 5,
    {
        5
    }

    /// Computes the section's handle.  Unlike the fixed-width sections there
    /// is no closed-form byte length: every record is visited, but only its
    /// event kind is read; the rest of the record is skipped.  The cost is
    /// proportional to the record count, not to the cut-information bytes.
    pub fn load_real_block_size(bytes: &Vec<u8>, pos: &mut usize, at: u64) -> (r: Result<
        BlockIndex<Notes>,
        BsorError,
    >)
        ensures
            match r {
                Ok(idx) => idx.spec_pos() == at && spec_scan_notes(bytes@, *old(pos) as int)
                    == Ok::<_, BsorError>((idx.spec_len(), idx.spec_bytes() as int)) && *final(pos)
                    == *old(pos) + 5,
                Err(e) => spec_scan_notes(bytes@, *old(pos) as int) == Err::<(i32, int), _>(e)
                    && *final(pos) == *old(pos),
            },
    {
        let start = *pos;
        match crate::replay::assert_start_of_block(bytes, pos, BlockType::Notes) {
            Ok(()) => (),
            Err(e) => {
                return Err(e);
            },
        }
        let count = match read_int(bytes, pos) {
            Ok(c) => c,
            Err(e) => {
                *pos = start;
                return Err(e);
            },
        };
        if count < 0 {
            *pos = start;
            return Err(BsorError::Io);
        }
        let n = count as usize;
        let body = *pos;
        let blen = bytes.len();
        let mut acc: u64 = 0;
        let mut i: usize = 0;
        proof {
            assert(spec_scan_notes(bytes@, start as int) == (match spec_scan_note_list(
                bytes@,
                body as int,
                n as int,
            ) {
                Err(e) => Err::<(i32, int), BsorError>(e),
                Ok(end) => Ok((count, end - start)),
            }));
        }
        while i < n
            invariant
                i <= n,
                n <= 0x7fffffff,
                start == *old(pos),
                *pos == body,
                body == start + 5,
                blen == bytes@.len(),
                body <= blen,
                acc <= 88 * i,
                spec_scan_note_list(bytes@, body as int, n as int) == spec_scan_note_list(
                    bytes@,
                    body + acc,
                    n - i,
                ),
                spec_scan_notes(bytes@, start as int) == (match spec_scan_note_list(
                    bytes@,
                    body as int,
                    n as int,
                ) {
                    Err(e) => Err::<(i32, int), BsorError>(e),
                    Ok(end) => Ok((count, end - start)),
                }),
            decreases n - i,
        {
            let avail: u64 = (blen - body) as u64;
            if avail < 16 || acc > avail - 16 {
                proof {
                    assert(spec_scan_note(bytes@, body + acc) == Err::<int, _>(BsorError::Io));
                }
                *pos = start;
                return Err(BsorError::Io);
            }
            let cur: usize = body + (acc as usize);
            let mut p2: usize = cur;
            let w = match Note::get_total_block_size(bytes, &mut p2) {
                Ok(w) => w,
                Err(e) => {
                    *pos = start;
                    return Err(e);
                },
            };
            acc = acc + w;
            i = i + 1;
        }
        let total: u64 = 5 + acc;
        proof {
            assert(spec_scan_note_list(bytes@, body + acc, 0) == Ok::<_, BsorError>(
                body + acc as int,
            ));
        }
        Ok(BlockIndex::make(at, total, count))
    }
}

/// Appends the wire form of one [`Note`].
pub fn append_note(out: &mut Vec<u8>, n: &Note)
    ensures
        final(out)@ == old(out)@ + n.spec_enc(),
{
    n.append(out);
}

/// Appends the wire form of the whole Notes section.
pub fn append_notes(out: &mut Vec<u8>, notes: &Vec<Note>)
    requires
        notes@.len() <= i32::MAX,
    ensures
        final(out)@ == old(out)@ + enc_notes(notes@),
{
    append_section_records(out, BlockType::Notes, notes);
}

/// Every well-formed encoded Notes section decodes back to its records.
pub proof fn lemma_notes_round_trip(b: Seq<u8>, pos: int, s: Seq<Note>)
    requires
        forall|i: int| 0 <= i < s.len() ==> note_wf(#[trigger] s[i]),
        s.len() <= i32::MAX,
        0 <= pos,
        pos + enc_notes(s).len() <= b.len(),
        b.subrange(pos, pos + enc_notes(s).len()) == enc_notes(s),
    ensures
        spec_load_notes(b, pos) == Ok::<_, BsorError>((s, pos + enc_notes(s).len())),
{
    let f = record_reader::<Note>();
    let enc = record_encoder::<Note>();
    assert forall|p: int, v: Note|
        note_wf(v) && 0 <= p && p + enc(v).len() <= b.len() && #[trigger] b.subrange(
            p,
            p + enc(v).len(),
        ) == enc(v) implies f(b, p) == Ok::<_, BsorError>((v, p + enc(v).len())) by {
        assert(enc(v) == v.spec_enc());
        lemma_note_round_trip(b, p, v);
        assert(f(b, p) == Note::spec_load(b, p));
    }
    crate::section::lemma_section_round_trip(f, enc, |v: Note| note_wf(v), b, pos, 2, s);
}

/// One note that decodes agrees with its width scan.
pub proof fn lemma_scan_note_agrees(b: Seq<u8>, p: int)
    ensures
        Note::spec_load(b, p) matches Ok((v, pe)) ==> spec_scan_note(b, p) == Ok::<_, BsorError>(
            pe - p,
        ),
{
    lemma_note_width(b, p);
}

/// A note list that decodes agrees with its width scan.
pub proof fn lemma_scan_note_list_agrees(b: Seq<u8>, pos: int, n: int)
    requires
        n >= 0,
    ensures
        spec_load_list(record_reader::<Note>(), b, pos, n) matches Ok((s, p2)) ==> s.len() == n
            && spec_scan_note_list(b, pos, n) == Ok::<_, BsorError>(p2),
    decreases n,
{
    let f = record_reader::<Note>();
    if n > 0 && spec_load_list(f, b, pos, n) is Ok {
        let (x, px) = f(b, pos)->Ok_0;
        assert(f(b, pos) == Note::spec_load(b, pos));
        lemma_scan_note_agrees(b, pos);
        lemma_scan_note_list_agrees(b, px, n - 1);
        let (st, p2) = spec_load_list(f, b, px, n - 1)->Ok_0;
        vstd::seq::axiom_seq_add_len(seq![x], st);
    }
}

/// The deferred size of the Notes section equals the number of bytes its
/// eager decode consumes.
pub proof fn lemma_notes_scan_agrees(b: Seq<u8>, pos: int)
    ensures
        spec_load_notes(b, pos) matches Ok((s, p2)) ==> spec_scan_notes(b, pos) == Ok::<
            _,
            BsorError,
        >((s.len() as i32, p2 - pos)),
{
    if spec_load_notes(b, pos) is Ok {
        let count = crate::section::i32_from_le_at(b, pos + 1);
        lemma_scan_note_list_agrees(b, pos + 5, count as int);
    }
}

} // verus!
