//! Decoder for the BS Open Replay (`.bsor`) binary container.
//!
//! A replay file is a fixed sequence of six tagged sections (Info, Frames,
//! Notes, Walls, Heights, Pauses) behind a five-byte header.  The crate
//! decodes such a buffer in two modes: an eager full decode
//! ([`replay::Replay::load`]) and a deferred decode
//! ([`replay::ReplayIndex::index`]) that records the byte layout of every
//! section so that a single section can be materialized later through its
//! [`replay::BlockIndex`] handle.
//!
//! Every multi-byte value on the wire is little-endian.  32-bit float fields
//! are kept as their raw bit patterns (`u32`); callers that need arithmetic
//! convert with `f32::from_bits` / `f32::to_bits`.
//!
//! Each decoder is specified against a spec-level reader of the wire format
//! (`spec_load_*`), and each encoder against the corresponding wire form
//! (`enc_*`).  The round-trip laws — decoding an encoded value gives the
//! value back, and the deferred size scans agree with the eager decoders —
//! are stated and proved next to the functions they are about.

pub mod decimal;
pub mod error;
pub mod frame;
pub mod header;
pub mod height;
pub mod info;
pub mod note;
pub mod pause;
pub mod read_utils;
pub mod replay;
pub mod section;
pub mod vector;
pub mod wall;
pub mod wire;
pub mod write_utils;
