//! The Info section: the flat record of player, hardware and song metadata.

use vstd::prelude::*;

use crate::decimal::parse_u32_dec;
use crate::decimal::spec_parse_u32;
use crate::decimal::u32_dec_digits;
use crate::decimal::u32_to_dec;
use crate::error::BsorError;
use crate::read_utils::read_bool;
use crate::read_utils::read_float;
use crate::read_utils::read_int;
use crate::read_utils::read_string;
use crate::replay::ReplayFloat;
use crate::replay::ReplayInt;
use crate::replay::ReplayTime;
use crate::wire::bool_byte;
use crate::wire::enc_str;
use crate::wire::i32_to_le;
use crate::wire::spec_read_bool;
use crate::wire::spec_read_int;
use crate::wire::spec_read_string;
use crate::wire::spec_read_u32;
use crate::wire::u32_to_le;
use crate::write_utils::append_bool;
use crate::write_utils::append_float;
use crate::write_utils::append_int;
use crate::write_utils::append_str;
use vstd::utf8::encode_utf8;

verus! {

/// The decoded Info section.  Field order is the wire order.  The timestamp
/// is written as a decimal string on the wire and parsed while decoding.
/// Float fields hold raw bit patterns.
#[derive(Debug, PartialEq)]
pub struct Info {
    pub version: String,
    pub game_version: String,
    pub timestamp: u32,
    pub player_id: String,
    pub player_name: String,
    pub platform: String,
    pub tracking_system: String,
    pub hmd: String,
    pub controller: String,
    pub hash: String,
    pub song_name: String,
    pub mapper: String,
    pub difficulty: String,
    pub score: ReplayInt,
    pub mode: String,
    pub environment: String,
    pub modifiers: String,
    pub jump_distance: ReplayFloat,
    pub left_handed: bool,
    pub height: ReplayFloat,
    pub start_time: ReplayTime,
    pub fail_time: ReplayTime,
    pub speed: ReplayTime,
}

/// The mathematical value of an [`Info`]: strings as character sequences.
pub ghost struct InfoV {
    pub version: Seq<char>,
    pub game_version: Seq<char>,
    pub timestamp: u32,
    pub player_id: Seq<char>,
    pub player_name: Seq<char>,
    pub platform: Seq<char>,
    pub tracking_system: Seq<char>,
    pub hmd: Seq<char>,
    pub controller: Seq<char>,
    pub hash: Seq<char>,
    pub song_name: Seq<char>,
    pub mapper: Seq<char>,
    pub difficulty: Seq<char>,
    pub score: i32,
    pub mode: Seq<char>,
    pub environment: Seq<char>,
    pub modifiers: Seq<char>,
    pub jump_distance: u32,
    pub left_handed: bool,
    pub height: u32,
    pub start_time: u32,
    pub fail_time: u32,
    pub speed: u32,
}

impl View for Info {
    type V = InfoV;

    open spec fn view(&self) -> InfoV {
        InfoV {
            version: self.version@,
            game_version: self.game_version@,
            timestamp: self.timestamp,
            player_id: self.player_id@,
            player_name: self.player_name@,
            platform: self.platform@,
            tracking_system: self.tracking_system@,
            hmd: self.hmd@,
            controller: self.controller@,
            hash: self.hash@,
            song_name: self.song_name@,
            mapper: self.mapper@,
            difficulty: self.difficulty@,
            score: self.score,
            mode: self.mode@,
            environment: self.environment@,
            modifiers: self.modifiers@,
            jump_distance: self.jump_distance,
            left_handed: self.left_handed,
            height: self.height,
            start_time: self.start_time,
            fail_time: self.fail_time,
            speed: self.speed,
        }
    }
}

/// Reads the whole Info section (tag 0), field by field in wire order.  The
/// timestamp string must parse as a decimal number; anything else in it is a
/// decoding failure.
#[verifier::opaque]
pub open spec fn spec_load_info(b: Seq<u8>, pos: int) -> Result<(InfoV, int), BsorError> {
    match crate::replay::spec_check_tag(b, pos, 0) {
        Err(e) => Err(e),
        Ok(p0) => match spec_read_string(b, p0) {
            Err(e) => Err(e),
            Ok((version, p1)) => match spec_read_string(b, p1) {
                Err(e) => Err(e),
                Ok((game_version, p2)) => match spec_read_string(b, p2) {
                    Err(e) => Err(e),
                    Ok((ts_chars, p3)) => match spec_parse_u32(encode_utf8(ts_chars)) {
                        None => Err(BsorError::Decoding),
                        Some(timestamp) => match spec_read_string(b, p3) {
                            Err(e) => Err(e),
                            Ok((player_id, p4)) => match spec_read_string(b, p4) {
                                Err(e) => Err(e),
                                Ok((player_name, p5)) => match spec_read_string(b, p5) {
                                    Err(e) => Err(e),
                                    Ok((platform, p6)) => match spec_read_string(b, p6) {
                                        Err(e) => Err(e),
                                        Ok((tracking_system, p7)) => match spec_read_string(
                                            b,
                                            p7,
                                        ) {
                                            Err(e) => Err(e),
                                            Ok((hmd, p8)) => match spec_read_string(b, p8) {
                                                Err(e) => Err(e),
                                                Ok((controller, p9)) => match spec_read_string(
                                                    b,
                                                    p9,
                                                ) {
                                                    Err(e) => Err(e),
                                                    Ok((hash, p10)) => match spec_read_string(
                                                        b,
                                                        p10,
                                                    ) {
                                                        Err(e) => Err(e),
                                                        Ok(
                                                            (song_name, p11),
                                                        ) => match spec_read_string(b, p11) {
                                                            Err(e) => Err(e),
                                                            Ok(
                                                                (mapper, p12),
                                                            ) => match spec_read_string(b, p12) {
                                                                Err(e) => Err(e),
                                                                Ok(
                                                                    (difficulty, p13),
                                                                ) => spec_load_info_tail(
                                                                    b,
                                                                    p13,
                                                                    InfoV {
                                                                        version,
                                                                        game_version,
                                                                        timestamp,
                                                                        player_id,
                                                                        player_name,
                                                                        platform,
                                                                        tracking_system,
                                                                        hmd,
                                                                        controller,
                                                                        hash,
                                                                        song_name,
                                                                        mapper,
                                                                        difficulty,
                                                                        score: 0,
                                                                        mode: Seq::empty(),
                                                                        environment: Seq::empty(),
                                                                        modifiers: Seq::empty(),
                                                                        jump_distance: 0,
                                                                        left_handed: false,
                                                                        height: 0,
                                                                        start_time: 0,
                                                                        fail_time: 0,
                                                                        speed: 0,
                                                                    },
                                                                ),
                                                            },
                                                        },
                                                    },
                                                },
                                            },
                                        },
                                    },
                                },
                            },
                        },
                    },
                },
            },
        },
    }
}

/// The numeric and closing-string fields of the Info section, continuing
/// after the difficulty field.
pub open spec fn spec_load_info_tail(b: Seq<u8>, pos: int, head: InfoV) -> Result<
    (InfoV, int),
    BsorError,
> {
    match spec_read_int(b, pos) {
        Err(e) => Err(e),
        Ok((score, p14)) => match spec_read_string(b, p14) {
            Err(e) => Err(e),
            Ok((mode, p15)) => match spec_read_string(b, p15) {
                Err(e) => Err(e),
                Ok((environment, p16)) => match spec_read_string(b, p16) {
                    Err(e) => Err(e),
                    Ok((modifiers, p17)) => match spec_read_u32(b, p17) {
                        Err(e) => Err(e),
                        Ok((jump_distance, p18)) => match spec_read_bool(b, p18) {
                            Err(e) => Err(e),
                            Ok((left_handed, p19)) => match spec_read_u32(b, p19) {
                                Err(e) => Err(e),
                                Ok((height, p20)) => match spec_read_u32(b, p20) {
                                    Err(e) => Err(e),
                                    Ok((start_time, p21)) => match spec_read_u32(b, p21) {
                                        Err(e) => Err(e),
                                        Ok((fail_time, p22)) => match spec_read_u32(b, p22) {
                                            Err(e) => Err(e),
                                            Ok((speed, p23)) => Ok(
                                                (
                                                    InfoV {
                                                        score,
                                                        mode,
                                                        environment,
                                                        modifiers,
                                                        jump_distance,
                                                        left_handed,
                                                        height,
                                                        start_time,
                                                        fail_time,
                                                        speed,
                                                        ..head
                                                    },
                                                    p23,
                                                ),
                                            ),
                                        },
                                    },
                                },
                            },
                        },
                    },
                },
            },
        },
    }
}

/// The wire form of the timestamp field: its canonical decimal text as a
/// length-prefixed string.
pub open spec fn enc_ts(t: u32) -> Seq<u8> {
    i32_to_le(u32_dec_digits(t).len() as i32) + u32_dec_digits(t)
}

/// The wire form of the fields after the difficulty field.
pub open spec fn enc_info_tail(v: InfoV) -> Seq<u8>
    recommends
        info_wf(v),
{
    i32_to_le(v.score) + enc_str(v.mode) + enc_str(v.environment) + enc_str(v.modifiers)
        + u32_to_le(v.jump_distance) + seq![bool_byte(v.left_handed)] + u32_to_le(v.height)
        + u32_to_le(v.start_time) + u32_to_le(v.fail_time) + u32_to_le(v.speed)
}

/// The wire form of the tag, the two version strings and the timestamp.
pub open spec fn enc_info_head(v: InfoV) -> Seq<u8>
    recommends
        info_wf(v),
{
    seq![0u8] + enc_str(v.version) + enc_str(v.game_version) + enc_ts(v.timestamp)
}

/// The wire form of the ten strings from the player id to the difficulty.
pub open spec fn enc_info_strs(v: InfoV) -> Seq<u8>
    recommends
        info_wf(v),
{
    enc_str(v.player_id) + enc_str(v.player_name) + enc_str(v.platform) + enc_str(
        v.tracking_system,
    ) + enc_str(v.hmd) + enc_str(v.controller) + enc_str(v.hash) + enc_str(v.song_name) + enc_str(
        v.mapper,
    ) + enc_str(v.difficulty)
}

/// The wire form of the whole Info section.
#[verifier::opaque]
pub open spec fn enc_info(v: InfoV) -> Seq<u8>
    recommends
        info_wf(v),
{
    enc_info_head(v) + enc_info_strs(v) + enc_info_tail(v)
}

/// An [`Info`] value whose wire form stays within the format's limits: every
/// string's UTF-8 byte length fits the `i32` length prefix.
pub open spec fn info_wf(v: InfoV) -> bool {
    &&& encode_utf8(v.version).len() <= i32::MAX
    &&& encode_utf8(v.game_version).len() <= i32::MAX
    &&& encode_utf8(v.player_id).len() <= i32::MAX
    &&& encode_utf8(v.player_name).len() <= i32::MAX
    &&& encode_utf8(v.platform).len() <= i32::MAX
    &&& encode_utf8(v.tracking_system).len() <= i32::MAX
    &&& encode_utf8(v.hmd).len() <= i32::MAX
    &&& encode_utf8(v.controller).len() <= i32::MAX
    &&& encode_utf8(v.hash).len() <= i32::MAX
    &&& encode_utf8(v.song_name).len() <= i32::MAX
    &&& encode_utf8(v.mapper).len() <= i32::MAX
    &&& encode_utf8(v.difficulty).len() <= i32::MAX
    &&& encode_utf8(v.mode).len() <= i32::MAX
    &&& encode_utf8(v.environment).len() <= i32::MAX
    &&& encode_utf8(v.modifiers).len() <= i32::MAX
}

impl Info {
    /// Decodes the Info section at the cursor.
    pub fn load(bytes: &Vec<u8>, pos: &mut usize) -> (r: Result<Info, BsorError>)
        ensures
            match r {
                Ok(v) => spec_load_info(bytes@, *old(pos) as int) == Ok::<_, BsorError>((
                    v@,
                    *final(pos) as int,
                )),
                Err(e) => spec_load_info(bytes@, *old(pos) as int) == Err::<(InfoV, int), _>(e)
                    && *final(pos) == *old(pos),
            },
    {
        proof {
            reveal(spec_load_info);
        }
        let start = *pos;
        match Self::load_inner(bytes, pos) {
            Ok(v) => Ok(v),
            Err(e) => {
                *pos = start;
                Err(e)
            },
        }
    }

    /// The decode chain itself; on failure the cursor is left mid-record and
    /// the caller restores it.
    #[verifier::rlimit(100)]
    #[verifier::spinoff_prover]
    fn load_inner(bytes: &Vec<u8>, pos: &mut usize) -> (r: Result<Info, BsorError>)
        ensures
            match r {
                Ok(v) => spec_load_info(bytes@, *old(pos) as int) == Ok::<_, BsorError>((
                    v@,
                    *final(pos) as int,
                )),
                Err(e) => spec_load_info(bytes@, *old(pos) as int) == Err::<(InfoV, int), _>(e),
            },
    {
        proof {
            reveal(spec_load_info);
        }
        crate::replay::assert_start_of_block(bytes, pos, crate::replay::BlockType::Info)?;
        let version = read_string(bytes, pos)?;
        let game_version = read_string(bytes, pos)?;
        let ts_str = read_string(bytes, pos)?;
        let ts_bytes = vstd::slice::slice_to_vec(ts_str.as_str().as_bytes());
        let timestamp = match parse_u32_dec(&ts_bytes) {
            Some(t) => t,
            None => {
                return Err(BsorError::Decoding);
            },
        };
        let player_id = read_string(bytes, pos)?;
        let player_name = read_string(bytes, pos)?;
        let platform = read_string(bytes, pos)?;
        let tracking_system = read_string(bytes, pos)?;
        let hmd = read_string(bytes, pos)?;
        let controller = read_string(bytes, pos)?;
        let hash = read_string(bytes, pos)?;
        let song_name = read_string(bytes, pos)?;
        let mapper = read_string(bytes, pos)?;
        let difficulty = read_string(bytes, pos)?;
        let score = read_int(bytes, pos)?;
        let mode = read_string(bytes, pos)?;
        let environment = read_string(bytes, pos)?;
        let modifiers = read_string(bytes, pos)?;
        let jump_distance = read_float(bytes, pos)?;
        let left_handed = read_bool(bytes, pos)?;
        let height = read_float(bytes, pos)?;
        let start_time = read_float(bytes, pos)?;
        let fail_time = read_float(bytes, pos)?;
        let speed = read_float(bytes, pos)?;
        Ok(
            Info {
                version,
                game_version,
                timestamp,
                player_id,
                player_name,
                platform,
                tracking_system,
                hmd,
                controller,
                hash,
                song_name,
                mapper,
                difficulty,
                score,
                mode,
                environment,
                modifiers,
                jump_distance,
                left_handed,
                height,
                start_time,
                fail_time,
                speed,
            },
        )
    }
}

/// Appends the fields after the difficulty field.
#[verifier::rlimit(100)]
#[verifier::spinoff_prover]
fn append_info_tail(out: &mut Vec<u8>, info: &Info)
    requires
        info_wf(info@),
    ensures
        final(out)@ == old(out)@ + enc_info_tail(info@),
{
    append_int(out, info.score);
    append_str(out, info.mode.as_str());
    append_str(out, info.environment.as_str());
    append_str(out, info.modifiers.as_str());
    append_float(out, info.jump_distance);
    append_bool(out, info.left_handed);
    append_float(out, info.height);
    append_float(out, info.start_time);
    append_float(out, info.fail_time);
    append_float(out, info.speed);
    proof {
        assert(out@ =~= old(out)@ + enc_info_tail(info@));
    }
}

/// Appends the tag, the two version strings and the timestamp.
#[verifier::rlimit(100)]
#[verifier::spinoff_prover]
fn append_info_head(out: &mut Vec<u8>, info: &Info)
    requires
        info_wf(info@),
    ensures
        final(out)@ == old(out)@ + enc_info_head(info@),
{
    crate::write_utils::append_byte(out, 0);
    append_str(out, info.version.as_str());
    append_str(out, info.game_version.as_str());
    let digits = u32_to_dec(info.timestamp);
    proof {
        crate::decimal::lemma_dec_digits_len(info.timestamp);
    }
    append_int(out, digits.len() as i32);
    out.extend_from_slice(digits.as_slice());
    proof {
        assert(out@ =~= old(out)@ + enc_info_head(info@));
    }
}

/// Appends the ten strings from the player id to the difficulty.
#[verifier::rlimit(100)]
#[verifier::spinoff_prover]
fn append_info_strs(out: &mut Vec<u8>, info: &Info)
    requires
        info_wf(info@),
    ensures
        final(out)@ == old(out)@ + enc_info_strs(info@),
{
    append_str(out, info.player_id.as_str());
    append_str(out, info.player_name.as_str());
    append_str(out, info.platform.as_str());
    append_str(out, info.tracking_system.as_str());
    append_str(out, info.hmd.as_str());
    append_str(out, info.controller.as_str());
    append_str(out, info.hash.as_str());
    append_str(out, info.song_name.as_str());
    append_str(out, info.mapper.as_str());
    append_str(out, info.difficulty.as_str());
    proof {
        assert(out@ =~= old(out)@ + enc_info_strs(info@));
    }
}

/// Appends the wire form of the whole Info section.
pub fn append_info(out: &mut Vec<u8>, info: &Info)
    requires
        info_wf(info@),
    ensures
        final(out)@ == old(out)@ + enc_info(info@),
{
    append_info_head(out, info);
    append_info_strs(out, info);
    append_info_tail(out, info);
    proof {
        reveal(enc_info);
        assert(out@ =~= old(out)@ + enc_info(info@));
    }
}

/// Decoding the wire form of the timestamp field yields its value.
pub proof fn lemma_ts_round_trip(b: Seq<u8>, pos: int, t: u32)
    requires
        0 <= pos,
        pos + enc_ts(t).len() <= b.len(),
        b.subrange(pos, pos + enc_ts(t).len()) == enc_ts(t),
    ensures
        spec_read_string(b, pos) matches Ok((cs, p)) && p == pos + enc_ts(t).len()
            && spec_parse_u32(encode_utf8(cs)) == Some(t),
{
    broadcast use vstd::utf8::decode_utf8_encode_utf8;

    let digits = u32_dec_digits(t);
    crate::decimal::lemma_dec_digits_len(t);
    crate::decimal::lemma_dec_digits_of_u32(t);
    crate::wire::lemma_seq_unconcat(b, pos, i32_to_le(digits.len() as i32), digits);
    crate::wire::lemma_i32_le_identity(digits.len() as i32);
    assert(forall|i: int| 0 <= i < digits.len() ==> #[trigger] digits[i] < 0x80);
    crate::decimal::lemma_ascii_valid_utf8(digits);
    assert(encode_utf8(vstd::utf8::decode_utf8(digits)) == digits);
    crate::decimal::lemma_parse_of_dec(t);
}

/// Decoding the wire form of the tail fields yields them.
#[verifier::rlimit(100)]
#[verifier::spinoff_prover]
pub proof fn lemma_info_tail_round_trip(b: Seq<u8>, pos: int, v: InfoV, head: InfoV)
    requires
        info_wf(v),
        0 <= pos,
        pos + enc_info_tail(v).len() <= b.len(),
        b.subrange(pos, pos + enc_info_tail(v).len()) == enc_info_tail(v),
    ensures
        spec_load_info_tail(b, pos, head) == Ok::<_, BsorError>((
            InfoV {
                score: v.score,
                mode: v.mode,
                environment: v.environment,
                modifiers: v.modifiers,
                jump_distance: v.jump_distance,
                left_handed: v.left_handed,
                height: v.height,
                start_time: v.start_time,
                fail_time: v.fail_time,
                speed: v.speed,
                ..head
            },
            pos + enc_info_tail(v).len(),
        )),
{
    let a1 = i32_to_le(v.score);
    let a2 = a1 + enc_str(v.mode);
    let a3 = a2 + enc_str(v.environment);
    let a4 = a3 + enc_str(v.modifiers);
    let a5 = a4 + u32_to_le(v.jump_distance);
    let a6 = a5 + seq![bool_byte(v.left_handed)];
    let a7 = a6 + u32_to_le(v.height);
    let a8 = a7 + u32_to_le(v.start_time);
    let a9 = a8 + u32_to_le(v.fail_time);
    crate::wire::lemma_seq_unconcat(b, pos, a9, u32_to_le(v.speed));
    crate::wire::lemma_seq_unconcat(b, pos, a8, u32_to_le(v.fail_time));
    crate::wire::lemma_seq_unconcat(b, pos, a7, u32_to_le(v.start_time));
    crate::wire::lemma_seq_unconcat(b, pos, a6, u32_to_le(v.height));
    crate::wire::lemma_seq_unconcat(b, pos, a5, seq![bool_byte(v.left_handed)]);
    crate::wire::lemma_seq_unconcat(b, pos, a4, u32_to_le(v.jump_distance));
    crate::wire::lemma_seq_unconcat(b, pos, a3, enc_str(v.modifiers));
    crate::wire::lemma_seq_unconcat(b, pos, a2, enc_str(v.environment));
    crate::wire::lemma_seq_unconcat(b, pos, a1, enc_str(v.mode));
    crate::wire::lemma_i32_le_identity(v.score);
    crate::wire::lemma_str_round_trip(b, pos + a1.len(), v.mode);
    crate::wire::lemma_str_round_trip(b, pos + a2.len(), v.environment);
    crate::wire::lemma_str_round_trip(b, pos + a3.len(), v.modifiers);
    crate::wire::lemma_u32_le_identity(v.jump_distance);
    assert(b[pos + a5.len()] == b.subrange(pos + a5.len(), pos + a6.len())[0]);
    crate::wire::lemma_u32_le_identity(v.height);
    crate::wire::lemma_u32_le_identity(v.start_time);
    crate::wire::lemma_u32_le_identity(v.fail_time);
    crate::wire::lemma_u32_le_identity(v.speed);
}

/// Decoding the ten strings from the player id to the difficulty yields
/// them one after the other.
#[verifier::rlimit(100)]
#[verifier::spinoff_prover]
pub proof fn lemma_info_strs_round_trip(b: Seq<u8>, pos: int, v: InfoV)
    requires
        info_wf(v),
        0 <= pos,
        pos + enc_info_strs(v).len() <= b.len(),
        b.subrange(pos, pos + enc_info_strs(v).len()) == enc_info_strs(v),
    ensures
        ({
            let a1 = enc_str(v.player_id);
            let a2 = a1 + enc_str(v.player_name);
            let a3 = a2 + enc_str(v.platform);
            let a4 = a3 + enc_str(v.tracking_system);
            let a5 = a4 + enc_str(v.hmd);
            let a6 = a5 + enc_str(v.controller);
            let a7 = a6 + enc_str(v.hash);
            let a8 = a7 + enc_str(v.song_name);
            let a9 = a8 + enc_str(v.mapper);
            let a10 = a9 + enc_str(v.difficulty);
            &&& spec_read_string(b, pos) == Ok::<_, BsorError>((v.player_id, pos + a1.len()))
            &&& spec_read_string(b, pos + a1.len()) == Ok::<_, BsorError>((
                v.player_name,
                pos + a2.len(),
            ))
            &&& spec_read_string(b, pos + a2.len()) == Ok::<_, BsorError>((
                v.platform,
                pos + a3.len(),
            ))
            &&& spec_read_string(b, pos + a3.len()) == Ok::<_, BsorError>((
                v.tracking_system,
                pos + a4.len(),
            ))
            &&& spec_read_string(b, pos + a4.len()) == Ok::<_, BsorError>((v.hmd, pos + a5.len()))
            &&& spec_read_string(b, pos + a5.len()) == Ok::<_, BsorError>((
                v.controller,
                pos + a6.len(),
            ))
            &&& spec_read_string(b, pos + a6.len()) == Ok::<_, BsorError>((v.hash, pos + a7.len()))
            &&& spec_read_string(b, pos + a7.len()) == Ok::<_, BsorError>((
                v.song_name,
                pos + a8.len(),
            ))
            &&& spec_read_string(b, pos + a8.len()) == Ok::<_, BsorError>((
                v.mapper,
                pos + a9.len(),
            ))
            &&& spec_read_string(b, pos + a9.len()) == Ok::<_, BsorError>((
                v.difficulty,
                pos + a10.len(),
            ))
        }),
{
    let a1 = enc_str(v.player_id);
    let a2 = a1 + enc_str(v.player_name);
    let a3 = a2 + enc_str(v.platform);
    let a4 = a3 + enc_str(v.tracking_system);
    let a5 = a4 + enc_str(v.hmd);
    let a6 = a5 + enc_str(v.controller);
    let a7 = a6 + enc_str(v.hash);
    let a8 = a7 + enc_str(v.song_name);
    let a9 = a8 + enc_str(v.mapper);
    crate::wire::lemma_seq_unconcat(b, pos, a9, enc_str(v.difficulty));
    crate::wire::lemma_seq_unconcat(b, pos, a8, enc_str(v.mapper));
    crate::wire::lemma_seq_unconcat(b, pos, a7, enc_str(v.song_name));
    crate::wire::lemma_seq_unconcat(b, pos, a6, enc_str(v.hash));
    crate::wire::lemma_seq_unconcat(b, pos, a5, enc_str(v.controller));
    crate::wire::lemma_seq_unconcat(b, pos, a4, enc_str(v.hmd));
    crate::wire::lemma_seq_unconcat(b, pos, a3, enc_str(v.tracking_system));
    crate::wire::lemma_seq_unconcat(b, pos, a2, enc_str(v.platform));
    crate::wire::lemma_seq_unconcat(b, pos, a1, enc_str(v.player_name));
    crate::wire::lemma_str_round_trip(b, pos, v.player_id);
    crate::wire::lemma_str_round_trip(b, pos + a1.len(), v.player_name);
    crate::wire::lemma_str_round_trip(b, pos + a2.len(), v.platform);
    crate::wire::lemma_str_round_trip(b, pos + a3.len(), v.tracking_system);
    crate::wire::lemma_str_round_trip(b, pos + a4.len(), v.hmd);
    crate::wire::lemma_str_round_trip(b, pos + a5.len(), v.controller);
    crate::wire::lemma_str_round_trip(b, pos + a6.len(), v.hash);
    crate::wire::lemma_str_round_trip(b, pos + a7.len(), v.song_name);
    crate::wire::lemma_str_round_trip(b, pos + a8.len(), v.mapper);
    crate::wire::lemma_str_round_trip(b, pos + a9.len(), v.difficulty);
}

/// Decoding the wire form of a well-formed [`Info`] gives back the record.
#[verifier::rlimit(100)]
#[verifier::spinoff_prover]
pub proof fn lemma_info_round_trip(b: Seq<u8>, pos: int, v: InfoV)
    requires
        info_wf(v),
        0 <= pos,
        pos + enc_info(v).len() <= b.len(),
        b.subrange(pos, pos + enc_info(v).len()) == enc_info(v),
    ensures
        spec_load_info(b, pos) == Ok::<_, BsorError>((v, pos + enc_info(v).len())),
{
    reveal(spec_load_info);
    reveal(enc_info);
    let h = enc_info_head(v);
    let m = enc_info_strs(v);
    let t = enc_info_tail(v);
    crate::wire::lemma_seq_unconcat(b, pos, h + m, t);
    crate::wire::lemma_seq_unconcat(b, pos, h, m);
    let a1 = seq![0u8];
    let a2 = a1 + enc_str(v.version);
    let a3 = a2 + enc_str(v.game_version);
    crate::wire::lemma_seq_unconcat(b, pos, a3, enc_ts(v.timestamp));
    crate::wire::lemma_seq_unconcat(b, pos, a2, enc_str(v.game_version));
    crate::wire::lemma_seq_unconcat(b, pos, a1, enc_str(v.version));
    assert(b[pos] == b.subrange(pos, pos + 1)[0]);
    crate::wire::lemma_str_round_trip(b, pos + 1, v.version);
    crate::wire::lemma_str_round_trip(b, pos + a2.len(), v.game_version);
    lemma_ts_round_trip(b, pos + a3.len(), v.timestamp);
    lemma_info_strs_round_trip(b, pos + h.len(), v);
    lemma_info_tail_round_trip(
        b,
        pos + h.len() + m.len(),
        v,
        InfoV {
            version: v.version,
            game_version: v.game_version,
            timestamp: v.timestamp,
            player_id: v.player_id,
            player_name: v.player_name,
            platform: v.platform,
            tracking_system: v.tracking_system,
            hmd: v.hmd,
            controller: v.controller,
            hash: v.hash,
            song_name: v.song_name,
            mapper: v.mapper,
            difficulty: v.difficulty,
            score: 0,
            mode: Seq::empty(),
            environment: Seq::empty(),
            modifiers: Seq::empty(),
            jump_distance: 0,
            left_handed: false,
            height: 0,
            start_time: 0,
            fail_time: 0,
            speed: 0,
        },
    );
}

} // verus!
