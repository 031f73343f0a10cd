use bsor::error::BsorError;
use bsor::frame::Frame;
use bsor::frame::Frames;
use bsor::frame::PositionAndRotation;
use bsor::height::Height;
use bsor::height::Heights;
use bsor::info::append_info;
use bsor::info::Info;
use bsor::note::ColorType;
use bsor::note::CutDirection;
use bsor::note::Note;
use bsor::note::NoteCutInfo;
use bsor::note::NoteEventType;
use bsor::note::NoteScoringType;
use bsor::note::Notes;
use bsor::pause::Pause;
use bsor::pause::Pauses;
use bsor::replay::append_replay;
use bsor::replay::LoadBlock;
use bsor::replay::Replay;
use bsor::replay::ReplayIndex;
use bsor::vector::Vector3;
use bsor::vector::Vector4;
use bsor::wall::Wall;
use bsor::wall::Walls;

fn fb(x: f32) -> u32 {
    x.to_bits()
}

fn sample_info() -> Info {
    Info {
        version: "0.5.4".to_string(),
        game_version: "1.27.0".to_string(),
        timestamp: 1661543854,
        player_id: "76561198035381239".to_string(),
        player_name: "xor eax eax".to_string(),
        platform: "steam".to_string(),
        tracking_system: "Oculus".to_string(),
        hmd: "Rift_S".to_string(),
        controller: "Unknown".to_string(),
        hash: "C3CFED196F96B161C0862EC387E0EE9241CD5B48".to_string(),
        song_name: "Novablast".to_string(),
        mapper: "Bitz".to_string(),
        difficulty: "Expert".to_string(),
        score: 1215225,
        mode: "Standard".to_string(),
        environment: "Timbaland".to_string(),
        modifiers: "DA,FS".to_string(),
        jump_distance: fb(18.0),
        left_handed: false,
        height: fb(1.76),
        start_time: fb(0.0),
        fail_time: fb(0.0),
        speed: fb(0.0),
    }
}

fn sample_vec3(k: f32) -> Vector3 {
    Vector3 { x: fb(0.25 + k), y: fb(0.5 + k), z: fb(0.75 + k) }
}

fn sample_vec4(k: f32) -> Vector4 {
    Vector4 { x: fb(0.125 + k), y: fb(0.375 + k), z: fb(0.625 + k), w: fb(0.875 + k) }
}

fn sample_pr(k: f32) -> PositionAndRotation {
    PositionAndRotation { position: sample_vec3(k), rotation: sample_vec4(k) }
}

fn sample_frame(k: f32) -> Frame {
    Frame {
        time: fb(12.5 + k),
        fps: 90,
        head: sample_pr(k),
        left_hand: sample_pr(k + 0.01),
        right_hand: sample_pr(k + 0.02),
    }
}

fn sample_cut_info() -> NoteCutInfo {
    NoteCutInfo {
        speed_ok: true,
        direction_ok: true,
        saber_type_ok: true,
        was_cut_too_soon: false,
        saber_speed: fb(17.5),
        saber_dir: sample_vec3(0.0),
        saber_type: ColorType::Red,
        time_deviation: fb(0.031),
        cut_dir_deviation: fb(4.25),
        cut_point: sample_vec3(0.1),
        cut_normal: sample_vec3(0.2),
        cut_distance_to_center: fb(0.06),
        cut_angle: fb(92.0),
        before_cut_rating: fb(1.0),
        after_cut_rating: fb(0.75),
    }
}

fn sample_note(event_type: NoteEventType) -> Note {
    let cut_info = match event_type {
        NoteEventType::Good | NoteEventType::Bad => Some(sample_cut_info()),
        _ => None,
    };

    Note {
        scoring_type: NoteScoringType::Normal,
        line_idx: 2,
        line_layer: 1,
        color_type: ColorType::Blue,
        cut_direction: CutDirection::TopCenter,
        event_time: fb(55.5),
        spawn_time: fb(54.75),
        event_type,
        cut_info,
    }
}

fn sample_replay() -> Replay {
    Replay {
        version: 1,
        info: sample_info(),
        frames: Frames::new(vec![sample_frame(0.0), sample_frame(1.0)]),
        notes: Notes::new(vec![
            sample_note(NoteEventType::Bomb),
            sample_note(NoteEventType::Good),
        ]),
        walls: Walls::new(vec![
            Wall {
                line_idx: 1,
                obstacle_type: 2,
                width: 3,
                energy: fb(40.0),
                time: fb(41.0),
                spawn_time: fb(42.0),
            },
        ]),
        heights: Heights::new(vec![
            Height { height: fb(1.8), time: fb(20.0) },
            Height { height: fb(1.85), time: fb(21.0) },
        ]),
        pauses: Pauses::new(vec![
            Pause { duration: 10, time: fb(30.0) },
            Pause { duration: 12, time: fb(31.0) },
        ]),
    }
}

fn replay_buffer(replay: &Replay) -> Vec<u8> {
    let mut buf: Vec<u8> = Vec::new();
    append_replay(&mut buf, replay);
    buf
}

#[test]
fn it_returns_invalid_bsor_error_when_info_block_id_is_invalid() {
    let buf = vec![255u8];

    let mut pos: usize = 0;
    let result = Info::load(&buf, &mut pos);

    assert!(matches!(result, Err(BsorError::InvalidBsor)));
}

#[test]
fn it_can_load_info() {
    let info = sample_info();

    let mut buf: Vec<u8> = Vec::new();
    append_info(&mut buf, &info);

    let mut pos: usize = 0;
    let result = Info::load(&buf, &mut pos).unwrap();

    assert_eq!(result, info);
}

#[test]
fn it_can_load_replay() {
    let replay = sample_replay();

    let buf = replay_buffer(&replay);

    let result = Replay::load(&buf).unwrap();

    assert_eq!(result.version, replay.version);
    assert_eq!(result.info, replay.info);
    assert_eq!(result.frames, replay.frames);
    assert_eq!(result.notes, replay.notes);
    assert_eq!(result.walls, replay.walls);
    assert_eq!(result.heights, replay.heights);
    assert_eq!(result.pauses, replay.pauses);
}

#[test]
fn it_can_index_replay() {
    let replay = sample_replay();

    let buf = replay_buffer(&replay);

    let result = ReplayIndex::index(&buf).unwrap();

    assert_eq!(result.version, replay.version);
    assert_eq!(result.info, replay.info);
    assert_eq!(result.frames.len(), replay.frames.len() as i32);
    assert_eq!(result.notes.len(), replay.notes.len() as i32);
    assert_eq!(result.walls.len(), replay.walls.len() as i32);
    assert_eq!(result.heights.len(), replay.heights.len() as i32);
    assert_eq!(result.pauses.len(), replay.pauses.len() as i32);
}

#[test]
fn encoding_a_decoded_replay_reproduces_the_buffer() {
    // The byte-level round trip on a well-formed buffer.
    let replay = sample_replay();
    let buf = replay_buffer(&replay);

    let decoded = Replay::load(&buf).unwrap();
    let reencoded = replay_buffer(&decoded);

    assert_eq!(reencoded, buf);
}

#[test]
fn section_byte_lengths_sum_to_stream_length() {
    // Five header bytes plus the byte lengths of all six sections equal the
    // total length of a non-truncated file.
    let replay = sample_replay();
    let buf = replay_buffer(&replay);

    let index = ReplayIndex::index(&buf).unwrap();

    let info_bytes = index.frames.pos() - 5;
    let total = 5 + info_bytes + index.frames.bytes() + index.notes.bytes() + index.walls.bytes()
        + index.heights.bytes() + index.pauses.bytes();

    assert_eq!(total, buf.len() as u64);
}

#[test]
fn sections_materialize_in_any_order() {
    // Materialization is independent of order and can be repeated.
    let replay = sample_replay();
    let buf = replay_buffer(&replay);

    let index = ReplayIndex::index(&buf).unwrap();

    let pauses = index.pauses.load(&buf).unwrap();
    let frames = index.frames.load(&buf).unwrap();
    let notes_once = index.notes.load(&buf).unwrap();
    let notes_again = index.notes.load(&buf).unwrap();

    assert_eq!(pauses, replay.pauses);
    assert_eq!(frames, replay.frames);
    assert_eq!(notes_once, replay.notes);
    assert_eq!(notes_again, replay.notes);
}

#[test]
fn truncated_replay_fails_with_io() {
    let replay = sample_replay();
    let mut buf = replay_buffer(&replay);
    buf.truncate(buf.len() - 1);

    let result = Replay::load(&buf);
    assert!(matches!(result, Err(BsorError::Io)));
}

#[test]
fn unsupported_version_is_reported_with_its_byte() {
    // A correct magic followed by version byte 2 fails the whole load with
    // the literal unsupported value.
    let replay = sample_replay();
    let mut buf = replay_buffer(&replay);
    buf[4] = 2;

    let result = Replay::load(&buf);
    let reported = match result {
        Err(BsorError::UnsupportedVersion(v)) => v,
        _ => panic!("expected an unsupported version failure"),
    };
    assert_eq!(reported, 2);
}
