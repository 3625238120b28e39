//! E-AC-3 syncframe inspection: header, audio-frame syntax, skip fields and EMDF payloads.

pub mod types;
pub mod header;
pub mod bsi;
pub mod audio_frame;
pub mod emdf;
pub mod skip;
pub mod block;
pub mod coupling;
pub mod params;
pub mod walk;
pub mod access_unit;
pub mod summary;
pub mod core_state;

pub use access_unit::{inspect_access_unit, AccessUnitInfo};
pub use emdf::{scan_emdf_blocks, TrailingAuxDataInfo};
pub use types::{
    AudioFrameInfo, AuxParseStatus, EmdfBlockInfo, EmdfPayloadInfo, EmdfSource, ExpStrategy,
    FrameType, ParseError, PayloadInfo, SkipFieldInfo, TransientProcessorInfo,
};
pub use walk::{collect_skip_fields, collect_skip_fields_without_block_start};
