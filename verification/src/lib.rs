//! E-AC-3 access-unit inspection with verified parsing of the syncframe header, the audio-frame
//! and audio-block syntax, skip fields and EMDF containers; the 7.1.4 bed layout; the C status
//! codes; the TrueHD layout bookkeeping; and raw elementary-stream splitting.

pub mod bitreader;
pub mod syncframe;
pub mod renderer;
pub mod text;
pub mod truehd;
pub mod lossless;
pub mod ffi;
pub mod raw_stream;
pub mod cli;
