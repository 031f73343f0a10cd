use bsor::error::BsorError;
use bsor::frame::append_frame;
use bsor::frame::append_frames;
use bsor::frame::Frame;
use bsor::frame::Frames;
use bsor::frame::PositionAndRotation;
use bsor::height::append_height;
use bsor::height::append_heights;
use bsor::height::Height;
use bsor::height::Heights;
use bsor::pause::append_pause;
use bsor::pause::append_pauses;
use bsor::pause::Pause;
use bsor::pause::Pauses;
use bsor::replay::LoadBlock;
use bsor::section::WireRecord;
use bsor::vector::Vector3;
use bsor::vector::Vector4;
use bsor::wall::append_wall;
use bsor::wall::append_walls;
use bsor::wall::Wall;
use bsor::wall::Walls;

fn fb(x: f32) -> u32 {
    x.to_bits()
}

fn sample_vec3(k: f32) -> Vector3 {
    Vector3 { x: fb(0.25 + k), y: fb(0.5 + k), z: fb(0.75 + k) }
}

fn sample_vec4(k: f32) -> Vector4 {
    Vector4 { x: fb(0.125 + k), y: fb(0.375 + k), z: fb(0.625 + k), w: fb(0.875 + k) }
}

fn sample_pr(k: f32) -> PositionAndRotation {
    PositionAndRotation { position: sample_vec3(k), rotation: sample_vec4(k) }
}

fn sample_frame(k: f32) -> Frame {
    Frame {
        time: fb(12.5 + k),
        fps: 90,
        head: sample_pr(k),
        left_hand: sample_pr(k + 0.01),
        right_hand: sample_pr(k + 0.02),
    }
}

fn sample_height(k: f32) -> Height {
    Height { height: fb(1.8 + k), time: fb(20.0 + k) }
}

fn sample_pause(k: u64) -> Pause {
    Pause { duration: 10 + k, time: fb(30.0 + k as f32) }
}

fn sample_wall(k: u8) -> Wall {
    Wall {
        line_idx: 1 + k,
        obstacle_type: 2,
        width: 3,
        energy: fb(40.0 + k as f32),
        time: fb(41.0 + k as f32),
        spawn_time: fb(42.0 + k as f32),
    }
}

#[test]
fn it_returns_correct_static_size_of_frame() {
    assert_eq!(Frame::get_static_size(), 92);
}

#[test]
fn it_can_load_frame() {
    let frame = sample_frame(0.0);

    let mut buf: Vec<u8> = Vec::new();
    append_frame(&mut buf, &frame);

    let mut pos: usize = 0;
    let result = Frame::load(&buf, &mut pos).unwrap();

    assert_eq!(result, frame)
}

#[test]
fn it_returns_invalid_bsor_error_when_frames_block_id_is_invalid() {
    let frames = vec![sample_frame(0.0), sample_frame(1.0)];

    let mut buf: Vec<u8> = Vec::new();
    append_frames(&mut buf, &frames);
    buf[0] = 255;

    let mut pos: usize = 0;
    let result = Frames::load(&buf, &mut pos);

    assert!(matches!(result, Err(BsorError::InvalidBsor)));
    // nothing of the section was consumed
    assert_eq!(pos, 0);
}

#[test]
fn it_can_load_frames() {
    let frames = vec![sample_frame(0.0), sample_frame(1.0)];

    let mut buf: Vec<u8> = Vec::new();
    append_frames(&mut buf, &frames);

    let mut pos: usize = 0;
    let result = Frames::load(&buf, &mut pos).unwrap();

    assert_eq!(*result.get_vec(), frames);
    assert_eq!(result.len(), frames.len());
}

#[test]
fn it_returns_correct_static_size_of_frames() {
    assert_eq!(Frames::get_static_size(), 5);
}

#[test]
fn it_can_load_frames_block_index() {
    let frames = vec![sample_frame(0.0), sample_frame(1.0)];

    let mut buf: Vec<u8> = Vec::new();
    append_frames(&mut buf, &frames);

    let mut pos: usize = 0;
    let frames_block = Frames::load_real_block_size(&buf, &mut pos, 0).unwrap();

    let result = frames_block.load(&buf).unwrap();

    assert_eq!(frames_block.pos(), 0);
    assert_eq!(frames_block.bytes(), Frames::get_static_size() as u64 + Frame::get_static_size() as u64 * 2);
    assert_eq!(frames_block.len(), frames.len() as i32);
    assert_eq!(*result.get_vec(), frames);
}

#[test]
fn it_returns_correct_static_size_of_height() {
    assert_eq!(Height::get_static_size(), 8);
}

#[test]
fn it_can_load_height() {
    let height = sample_height(0.0);

    let mut buf: Vec<u8> = Vec::new();
    append_height(&mut buf, &height);

    let mut pos: usize = 0;
    let result = Height::load(&buf, &mut pos).unwrap();

    assert_eq!(result, height)
}

#[test]
fn it_returns_correct_static_size_of_heights() {
    assert_eq!(Heights::get_static_size(), 5);
}

#[test]
fn it_returns_invalid_bsor_error_when_heights_block_id_is_invalid() {
    let heights = vec![sample_height(0.0), sample_height(1.0)];

    let mut buf: Vec<u8> = Vec::new();
    append_heights(&mut buf, &heights);
    buf[0] = 255;

    let mut pos: usize = 0;
    let result = Heights::load(&buf, &mut pos);

    assert!(matches!(result, Err(BsorError::InvalidBsor)));
}

#[test]
fn it_can_load_heights() {
    let heights = vec![sample_height(0.0), sample_height(1.0)];

    let mut buf: Vec<u8> = Vec::new();
    append_heights(&mut buf, &heights);

    let mut pos: usize = 0;
    let result = Heights::load(&buf, &mut pos).unwrap();

    assert_eq!(*result.get_vec(), heights);
    assert_eq!(result.is_empty(), false);
    assert_eq!(result.len(), heights.len());
}

#[test]
fn it_can_load_parsed_heights_block() {
    let heights = vec![sample_height(0.0), sample_height(1.0)];

    let mut buf: Vec<u8> = Vec::new();
    append_heights(&mut buf, &heights);

    let mut pos: usize = 0;
    let walls_block = Heights::load_real_block_size(&buf, &mut pos, 0).unwrap();

    let result = walls_block.load(&buf).unwrap();

    assert_eq!(walls_block.pos(), 0);
    assert_eq!(
        walls_block.bytes(),
        Heights::get_static_size() as u64 + Height::get_static_size() as u64 * heights.len() as u64
    );
    assert_eq!(walls_block.is_empty(), false);
    assert_eq!(walls_block.len(), heights.len() as i32);
    assert_eq!(*result.get_vec(), heights);
}

#[test]
fn it_returns_correct_static_size_of_pause() {
    assert_eq!(Pause::get_static_size(), 12);
}

#[test]
fn it_can_load_pause() {
    let pause = sample_pause(0);

    let mut buf: Vec<u8> = Vec::new();
    append_pause(&mut buf, &pause);

    let mut pos: usize = 0;
    let result = Pause::load(&buf, &mut pos).unwrap();

    assert_eq!(result, pause)
}

#[test]
fn it_returns_correct_static_size_of_pauses() {
    assert_eq!(Pauses::get_static_size(), 5);
}

#[test]
fn it_returns_invalid_bsor_error_when_pauses_block_id_is_invalid() {
    let pauses = vec![sample_pause(0), sample_pause(1)];

    let mut buf: Vec<u8> = Vec::new();
    append_pauses(&mut buf, &pauses);
    buf[0] = 255;

    let mut pos: usize = 0;
    let result = Pauses::load(&buf, &mut pos);

    assert!(matches!(result, Err(BsorError::InvalidBsor)));
}

#[test]
fn it_can_load_pauses() {
    let pauses = vec![sample_pause(0), sample_pause(1)];

    let mut buf: Vec<u8> = Vec::new();
    append_pauses(&mut buf, &pauses);

    let mut pos: usize = 0;
    let result = Pauses::load(&buf, &mut pos).unwrap();

    assert_eq!(*result.get_vec(), pauses);
    assert_eq!(result.len(), pauses.len());
}

#[test]
fn it_can_load_pauses_block_index() {
    let pauses = vec![sample_pause(0), sample_pause(1)];

    let mut buf: Vec<u8> = Vec::new();
    append_pauses(&mut buf, &pauses);

    let mut pos: usize = 0;
    let walls_block = Pauses::load_real_block_size(&buf, &mut pos, 0).unwrap();

    let result = walls_block.load(&buf).unwrap();

    assert_eq!(walls_block.pos(), 0);
    assert_eq!(
        walls_block.bytes(),
        Pauses::get_static_size() as u64 + Pause::get_static_size() as u64 * pauses.len() as u64
    );
    assert_eq!(walls_block.is_empty(), false);
    assert_eq!(walls_block.len(), pauses.len() as i32);
    assert_eq!(*result.get_vec(), pauses);
}

#[test]
fn it_returns_correct_static_size_of_wall() {
    assert_eq!(Wall::get_static_size(), 16);
}

#[test]
fn it_can_load_wall() {
    let wall = sample_wall(0);

    let mut buf: Vec<u8> = Vec::new();
    append_wall(&mut buf, &wall);

    let mut pos: usize = 0;
    let result = Wall::load(&buf, &mut pos).unwrap();

    assert_eq!(result, wall)
}

#[test]
fn it_returns_correct_static_size_of_walls() {
    assert_eq!(Walls::get_static_size(), 5);
}

#[test]
fn it_returns_invalid_bsor_error_when_walls_block_id_is_invalid() {
    let walls = vec![sample_wall(0), sample_wall(1)];

    let mut buf: Vec<u8> = Vec::new();
    append_walls(&mut buf, &walls);
    buf[0] = 255;

    let mut pos: usize = 0;
    let result = Walls::load(&buf, &mut pos);

    assert!(matches!(result, Err(BsorError::InvalidBsor)));
}

#[test]
fn it_can_load_walls() {
    let walls = vec![sample_wall(0), sample_wall(1)];

    let mut buf: Vec<u8> = Vec::new();
    append_walls(&mut buf, &walls);

    let mut pos: usize = 0;
    let result = Walls::load(&buf, &mut pos).unwrap();

    assert_eq!(*result.get_vec(), walls);
    assert_eq!(result.is_empty(), false);
    assert_eq!(result.len(), walls.len());
}

#[test]
fn it_can_load_parsed_walls_block() {
    let walls = vec![sample_wall(0), sample_wall(1)];

    let mut buf: Vec<u8> = Vec::new();
    append_walls(&mut buf, &walls);

    let mut pos: usize = 0;
    let walls_block = Walls::load_real_block_size(&buf, &mut pos, 0).unwrap();

    let result = walls_block.load(&buf).unwrap();

    assert_eq!(walls_block.pos(), 0);
    assert_eq!(
        walls_block.bytes(),
        Walls::get_static_size() as u64 + Wall::get_static_size() as u64 * walls.len() as u64
    );
    assert_eq!(walls_block.is_empty(), false);
    assert_eq!(walls_block.len(), walls.len() as i32);
    assert_eq!(*result.get_vec(), walls);
}
