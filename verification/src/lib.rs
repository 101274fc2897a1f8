//! Verified core of a terminal video player.
//!
//! A video is decoded (by external tools, driven from the unverified shell
//! around this crate) into a directory of still images; each still image is
//! turned into a grid of ASCII glyphs standing for luminance, and the
//! resulting frames are emitted to the terminal at a fixed pace.
//!
//! This crate holds the logic of that pipeline: the luminance-to-glyph ramp,
//! the frame renderer, the ordering of frame file names, the frame-rate
//! parser with its fallback, the command lines handed to the external tools,
//! and the playback plan (what to write to the terminal, and how long to
//! sleep, at each step). All of it is verified; the one step taken on
//! trust is the image decoder, behind a stated contract in `decode`. The
//! unverified shell only performs the I/O that the plan and the contracts
//! describe.

pub mod adapter;
pub mod decode;
pub mod digits;
pub mod frame;
pub mod glyph;
pub mod names;
pub mod playback;
pub mod rate;
pub mod render;
