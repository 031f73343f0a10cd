use bsor::error::BsorError;
use bsor::note::append_note;
use bsor::note::append_notes;
use bsor::note::ColorType;
use bsor::note::CutDirection;
use bsor::note::Note;
use bsor::note::NoteCutInfo;
use bsor::note::NoteEventType;
use bsor::note::NoteScoringType;
use bsor::note::Notes;
use bsor::replay::LoadBlock;
use bsor::section::WireRecord;
use bsor::vector::Vector3;

fn fb(x: f32) -> u32 {
    x.to_bits()
}

fn sample_vec3(k: f32) -> Vector3 {
    Vector3 { x: fb(0.25 + k), y: fb(0.5 + k), z: fb(0.75 + k) }
}

fn sample_cut_info() -> NoteCutInfo {
    NoteCutInfo {
        speed_ok: true,
        direction_ok: false,
        saber_type_ok: true,
        was_cut_too_soon: false,
        saber_speed: fb(17.5),
        saber_dir: sample_vec3(0.0),
        saber_type: ColorType::Blue,
        time_deviation: fb(0.031),
        cut_dir_deviation: fb(4.25),
        cut_point: sample_vec3(0.1),
        cut_normal: sample_vec3(0.2),
        cut_distance_to_center: fb(0.06),
        cut_angle: fb(92.0),
        before_cut_rating: fb(1.0),
        after_cut_rating: fb(0.75),
    }
}

fn sample_note(event_type: NoteEventType) -> Note {
    let cut_info = match event_type {
        NoteEventType::Good | NoteEventType::Bad => Some(sample_cut_info()),
        _ => None,
    };

    Note {
        scoring_type: NoteScoringType::Normal,
        line_idx: 2,
        line_layer: 1,
        color_type: ColorType::Red,
        cut_direction: CutDirection::BottomCenter,
        event_time: fb(55.5),
        spawn_time: fb(54.75),
        event_type,
        cut_info,
    }
}

#[test]
fn it_returns_correct_static_size_of_note() {
    assert_eq!(Note::get_static_size(), 16);
}

#[test]
fn it_can_load_good_note() {
    let note = sample_note(NoteEventType::Good);

    let mut buf: Vec<u8> = Vec::new();
    append_note(&mut buf, &note);

    let mut pos: usize = 0;
    let result = Note::load(&buf, &mut pos).unwrap();

    assert_eq!(result, note)
}

#[test]
fn it_can_load_bad_note() {
    let note = sample_note(NoteEventType::Bad);

    let mut buf: Vec<u8> = Vec::new();
    append_note(&mut buf, &note);

    let mut pos: usize = 0;
    let result = Note::load(&buf, &mut pos).unwrap();

    assert_eq!(result, note)
}

#[test]
fn it_can_load_note_without_note_cut_info() {
    let note = sample_note(NoteEventType::Miss);

    let mut buf: Vec<u8> = Vec::new();
    append_note(&mut buf, &note);

    let mut pos: usize = 0;
    let result = Note::load(&buf, &mut pos).unwrap();

    assert_eq!(result, note)
}

#[test]
fn cut_info_presence_follows_event_type() {
    // Good and Bad notes always decode with cut information; Miss and
    // Bomb notes never do.
    for event_type in
        [NoteEventType::Good, NoteEventType::Bad, NoteEventType::Miss, NoteEventType::Bomb] {
        let note = sample_note(event_type);
        let mut buf: Vec<u8> = Vec::new();
        append_note(&mut buf, &note);

        let mut pos: usize = 0;
        let result = Note::load(&buf, &mut pos).unwrap();

        match result.event_type {
            NoteEventType::Good | NoteEventType::Bad => assert!(result.cut_info.is_some()),
            _ => assert!(result.cut_info.is_none()),
        }
    }
}

#[test]
fn it_returns_correct_static_size_of_notes() {
    assert_eq!(Notes::get_static_size(), 5);
}

#[test]
fn it_returns_invalid_bsor_error_when_notes_block_id_is_invalid() {
    let notes = vec![sample_note(NoteEventType::Bomb), sample_note(NoteEventType::Good)];

    let mut buf: Vec<u8> = Vec::new();
    append_notes(&mut buf, &notes);
    buf[0] = 255;

    let mut pos: usize = 0;
    let result = Notes::load(&buf, &mut pos);

    assert!(matches!(result, Err(BsorError::InvalidBsor)));
}

#[test]
fn it_can_load_notes() {
    let notes = vec![sample_note(NoteEventType::Bomb), sample_note(NoteEventType::Good)];

    let mut buf: Vec<u8> = Vec::new();
    append_notes(&mut buf, &notes);

    let mut pos: usize = 0;
    let result = Notes::load(&buf, &mut pos).unwrap();

    assert_eq!(*result.get_vec(), notes);
    assert_eq!(result.is_empty(), false);
    assert_eq!(result.len(), notes.len());
}

#[test]
fn it_can_load_parsed_notes_block() {
    let notes = vec![
        sample_note(NoteEventType::Good),
        sample_note(NoteEventType::Bad),
        sample_note(NoteEventType::Miss),
        sample_note(NoteEventType::Miss),
        sample_note(NoteEventType::Bomb),
    ];

    let mut buf: Vec<u8> = Vec::new();
    append_notes(&mut buf, &notes);

    let mut pos: usize = 0;
    let notes_block = Notes::load_real_block_size(&buf, &mut pos, 0).unwrap();

    let result = notes_block.load(&buf).unwrap();

    assert_eq!(notes_block.pos(), 0);
    assert_eq!(notes_block.bytes(), Notes::get_static_size() as u64 + 88 * 2 + 16 * 3);
    assert_eq!(notes_block.is_empty(), false);
    assert_eq!(notes_block.len(), notes.len() as i32);
    assert_eq!(*result.get_vec(), notes);
}

#[test]
fn notes_handle_spans_mixed_width_records() {
    // One Good note (with its 72-byte tail) and one Miss note: the handle's
    // byte length must be 5 + (16 + 72) + 16 = 109, and materializing the
    // handle must yield the two notes in their original order.
    let notes = vec![sample_note(NoteEventType::Good), sample_note(NoteEventType::Miss)];

    let mut buf: Vec<u8> = Vec::new();
    append_notes(&mut buf, &notes);

    let mut pos: usize = 0;
    let notes_block = Notes::load_real_block_size(&buf, &mut pos, 0).unwrap();

    assert_eq!(notes_block.bytes(), 109);
    assert_eq!(notes_block.len(), 2);

    let result = notes_block.load(&buf).unwrap();
    assert_eq!(result.get_vec()[0], notes[0]);
    assert_eq!(result.get_vec()[1], notes[1]);
}

#[test]
fn notes_handle_length_matches_eager_decode() {
    // The deferred size equals the bytes the eager decode consumes.
    let notes = vec![
        sample_note(NoteEventType::Good),
        sample_note(NoteEventType::Miss),
        sample_note(NoteEventType::Bad),
    ];

    let mut buf: Vec<u8> = Vec::new();
    append_notes(&mut buf, &notes);

    let mut scan_pos: usize = 0;
    let notes_block = Notes::load_real_block_size(&buf, &mut scan_pos, 0).unwrap();

    let mut eager_pos: usize = 0;
    Notes::load(&buf, &mut eager_pos).unwrap();

    assert_eq!(notes_block.bytes(), eager_pos as u64);
    assert_eq!(notes_block.bytes(), buf.len() as u64);
}

#[test]
fn note_width_scan_reads_only_the_event_kind() {
    let good = sample_note(NoteEventType::Good);
    let miss = sample_note(NoteEventType::Miss);

    let mut buf: Vec<u8> = Vec::new();
    append_note(&mut buf, &good);
    let good_len = buf.len();
    append_note(&mut buf, &miss);

    let mut pos: usize = 0;
    let w_good = Note::get_total_block_size(&buf, &mut pos).unwrap();
    assert_eq!(w_good, 88);
    assert_eq!(good_len, 88);
    // the scan stops right after the event kind field
    assert_eq!(pos, 16);

    let mut pos2: usize = good_len;
    let w_miss = Note::get_total_block_size(&buf, &mut pos2).unwrap();
    assert_eq!(w_miss, 16);
}

#[test]
fn unknown_enumeration_codes_decode_without_error() {
    // An out-of-table scoring type, cut direction and event kind decode to
    // the Unknown sentinel instead of failing.
    let mut buf: Vec<u8> = Vec::new();
    // packed id 91909: scoring 9, line 1, layer 9, color 0, direction 9
    buf.extend_from_slice(&i32::to_le_bytes(91909));
    buf.extend_from_slice(&f32::to_le_bytes(1.5));
    buf.extend_from_slice(&f32::to_le_bytes(2.5));
    buf.extend_from_slice(&i32::to_le_bytes(77));

    let mut pos: usize = 0;
    let result = Note::load(&buf, &mut pos).unwrap();

    assert_eq!(result.scoring_type, NoteScoringType::Unknown);
    assert_eq!(result.line_idx, 1);
    assert_eq!(result.line_layer, 9);
    assert_eq!(result.color_type, ColorType::Red);
    assert_eq!(result.cut_direction, CutDirection::Unknown);
    assert_eq!(result.event_type, NoteEventType::Unknown);
    assert!(result.cut_info.is_none());
}
