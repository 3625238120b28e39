//! Values of the C interface: status codes, bed channel codes and access-unit snapshots.

use crate::renderer::{BedChannel, Render714Error};
use crate::syncframe::access_unit::{spec_all_payloads, spec_count_id, AccessUnitInfo};
use crate::syncframe::types::{FrameType, ParseError};
use crate::truehd::{ObjectPcmDecoder, TrueHdError, TrueHdErrorKind};
use vstd::prelude::*;

verus! {

/// Status code returned by every function of the C interface.
#[derive(Debug, Clone, Copy, PartialEq, Eq, Structural)]
pub enum StarmineAdStatus {
    Success,
    NullPointer,
    ShortPacket,
    BadSyncword,
    NotEac3,
    InvalidHeader,
    TruncatedFrame,
    TrailingData,
    UnsupportedFeature,
    MissingOamd,
    OamdStateUninitialized,
    ObjectCountMismatch,
    UnsupportedSampleCount,
    UnsupportedBedChannel,
    SampleRateChanged,
    BedChannelCountMismatch,
    TrueHdParse,
    TrueHdDecode,
    TrueHdUnsupportedLayout,
    TrueHdInvalidMetadata,
}

/// The C value of a status.
pub open spec fn spec_status_code(status: StarmineAdStatus) -> int {
    match status {
        StarmineAdStatus::Success => 0,
        StarmineAdStatus::NullPointer => -1,
        StarmineAdStatus::ShortPacket => -2,
        StarmineAdStatus::BadSyncword => -3,
        StarmineAdStatus::NotEac3 => -4,
        StarmineAdStatus::InvalidHeader => -5,
        StarmineAdStatus::TruncatedFrame => -6,
        StarmineAdStatus::TrailingData => -7,
        StarmineAdStatus::UnsupportedFeature => -8,
        StarmineAdStatus::MissingOamd => -9,
        StarmineAdStatus::OamdStateUninitialized => -10,
        StarmineAdStatus::ObjectCountMismatch => -11,
        StarmineAdStatus::UnsupportedSampleCount => -12,
        StarmineAdStatus::UnsupportedBedChannel => -13,
        StarmineAdStatus::SampleRateChanged => -14,
        StarmineAdStatus::BedChannelCountMismatch => -15,
        StarmineAdStatus::TrueHdParse => -16,
        StarmineAdStatus::TrueHdDecode => -17,
        StarmineAdStatus::TrueHdUnsupportedLayout => -18,
        StarmineAdStatus::TrueHdInvalidMetadata => -19,
    }
}

/// The stable text of a status.
pub open spec fn spec_status_string(status: StarmineAdStatus) -> &'static str {
    match status {
        StarmineAdStatus::Success => "ok",
        StarmineAdStatus::NullPointer => "null-pointer",
        StarmineAdStatus::ShortPacket => "short-packet",
        StarmineAdStatus::BadSyncword => "bad-syncword",
        StarmineAdStatus::NotEac3 => "not-eac3",
        StarmineAdStatus::InvalidHeader => "invalid-header",
        StarmineAdStatus::TruncatedFrame => "truncated-frame",
        StarmineAdStatus::TrailingData => "trailing-data",
        StarmineAdStatus::UnsupportedFeature => "unsupported-feature",
        StarmineAdStatus::MissingOamd => "missing-oamd",
        StarmineAdStatus::OamdStateUninitialized => "oamd-state-uninitialized",
        StarmineAdStatus::ObjectCountMismatch => "object-count-mismatch",
        StarmineAdStatus::UnsupportedSampleCount => "unsupported-sample-count",
        StarmineAdStatus::UnsupportedBedChannel => "unsupported-bed-channel",
        StarmineAdStatus::SampleRateChanged => "sample-rate-changed",
        StarmineAdStatus::BedChannelCountMismatch => "bed-channel-count-mismatch",
        StarmineAdStatus::TrueHdParse => "truehd-parse",
        StarmineAdStatus::TrueHdDecode => "truehd-decode",
        StarmineAdStatus::TrueHdUnsupportedLayout => "truehd-unsupported-layout",
        StarmineAdStatus::TrueHdInvalidMetadata => "truehd-invalid-metadata",
    }
}

/// The status that reports a parse error.
pub open spec fn spec_status_from_parse_error(error: ParseError) -> StarmineAdStatus {
    match error {
        ParseError::ShortPacket => StarmineAdStatus::ShortPacket,
        ParseError::BadSyncword => StarmineAdStatus::BadSyncword,
        ParseError::NotEac3 => StarmineAdStatus::NotEac3,
        ParseError::InvalidHeader(_) => StarmineAdStatus::InvalidHeader,
        ParseError::TruncatedFrame { .. } => StarmineAdStatus::TruncatedFrame,
        ParseError::TrailingData { .. } => StarmineAdStatus::TrailingData,
        ParseError::UnsupportedFeature(_) => StarmineAdStatus::UnsupportedFeature,
    }
}

/// The status that reports a renderer error.
pub open spec fn spec_status_from_render_error(error: Render714Error) -> StarmineAdStatus {
    match error {
        Render714Error::MissingOamd => StarmineAdStatus::MissingOamd,
        Render714Error::OamdStateUninitialized => StarmineAdStatus::OamdStateUninitialized,
        Render714Error::ObjectCountMismatch { .. } => StarmineAdStatus::ObjectCountMismatch,
        Render714Error::BedChannelCountMismatch { .. } => StarmineAdStatus::BedChannelCountMismatch,
        Render714Error::UnsupportedSampleCount(_) => StarmineAdStatus::UnsupportedSampleCount,
        Render714Error::UnsupportedBedChannel(_) => StarmineAdStatus::UnsupportedBedChannel,
        Render714Error::SampleRateChanged { .. } => StarmineAdStatus::SampleRateChanged,
    }
}

/// The status that reports a TrueHD error of the given kind.
pub open spec fn spec_status_from_truehd_kind(kind: TrueHdErrorKind) -> StarmineAdStatus {
    match kind {
        TrueHdErrorKind::Parse => StarmineAdStatus::TrueHdParse,
        TrueHdErrorKind::Decode => StarmineAdStatus::TrueHdDecode,
        TrueHdErrorKind::UnsupportedLayout => StarmineAdStatus::TrueHdUnsupportedLayout,
        TrueHdErrorKind::InvalidMetadata => StarmineAdStatus::TrueHdInvalidMetadata,
    }
}

impl StarmineAdStatus {
    /// The C value of the status.
    pub fn code(self) -> (c: i32)
        ensures
            c == spec_status_code(self),
    {
        match self {
            StarmineAdStatus::Success => 0,
            StarmineAdStatus::NullPointer => -1,
            StarmineAdStatus::ShortPacket => -2,
            StarmineAdStatus::BadSyncword => -3,
            StarmineAdStatus::NotEac3 => -4,
            StarmineAdStatus::InvalidHeader => -5,
            StarmineAdStatus::TruncatedFrame => -6,
            StarmineAdStatus::TrailingData => -7,
            StarmineAdStatus::UnsupportedFeature => -8,
            StarmineAdStatus::MissingOamd => -9,
            StarmineAdStatus::OamdStateUninitialized => -10,
            StarmineAdStatus::ObjectCountMismatch => -11,
            StarmineAdStatus::UnsupportedSampleCount => -12,
            StarmineAdStatus::UnsupportedBedChannel => -13,
            StarmineAdStatus::SampleRateChanged => -14,
            StarmineAdStatus::BedChannelCountMismatch => -15,
            StarmineAdStatus::TrueHdParse => -16,
            StarmineAdStatus::TrueHdDecode => -17,
            StarmineAdStatus::TrueHdUnsupportedLayout => -18,
            StarmineAdStatus::TrueHdInvalidMetadata => -19,
        }
    }

    /// The stable text of the status.
    pub fn status_string(self) -> (s: &'static str)
        ensures
            s == spec_status_string(self),
    {
        match self {
            StarmineAdStatus::Success => "ok",
            StarmineAdStatus::NullPointer => "null-pointer",
            StarmineAdStatus::ShortPacket => "short-packet",
            StarmineAdStatus::BadSyncword => "bad-syncword",
            StarmineAdStatus::NotEac3 => "not-eac3",
            StarmineAdStatus::InvalidHeader => "invalid-header",
            StarmineAdStatus::TruncatedFrame => "truncated-frame",
            StarmineAdStatus::TrailingData => "trailing-data",
            StarmineAdStatus::UnsupportedFeature => "unsupported-feature",
            StarmineAdStatus::MissingOamd => "missing-oamd",
            StarmineAdStatus::OamdStateUninitialized => "oamd-state-uninitialized",
            StarmineAdStatus::ObjectCountMismatch => "object-count-mismatch",
            StarmineAdStatus::UnsupportedSampleCount => "unsupported-sample-count",
            StarmineAdStatus::UnsupportedBedChannel => "unsupported-bed-channel",
            StarmineAdStatus::SampleRateChanged => "sample-rate-changed",
            StarmineAdStatus::BedChannelCountMismatch => "bed-channel-count-mismatch",
            StarmineAdStatus::TrueHdParse => "truehd-parse",
            StarmineAdStatus::TrueHdDecode => "truehd-decode",
            StarmineAdStatus::TrueHdUnsupportedLayout => "truehd-unsupported-layout",
            StarmineAdStatus::TrueHdInvalidMetadata => "truehd-invalid-metadata",
        }
    }

    /// The status that reports a parse error.
    pub fn from_parse_error(error: ParseError) -> (s: Self)
        ensures
            s == spec_status_from_parse_error(error),
    {
        match error {
            ParseError::ShortPacket => StarmineAdStatus::ShortPacket,
            ParseError::BadSyncword => StarmineAdStatus::BadSyncword,
            ParseError::NotEac3 => StarmineAdStatus::NotEac3,
            ParseError::InvalidHeader(_) => StarmineAdStatus::InvalidHeader,
            ParseError::TruncatedFrame { .. } => StarmineAdStatus::TruncatedFrame,
            ParseError::TrailingData { .. } => StarmineAdStatus::TrailingData,
            ParseError::UnsupportedFeature(_) => StarmineAdStatus::UnsupportedFeature,
        }
    }

    /// The status that reports a renderer error.
    pub fn from_render_error(error: Render714Error) -> (s: Self)
        ensures
            s == spec_status_from_render_error(error),
    {
        match error {
            Render714Error::MissingOamd => StarmineAdStatus::MissingOamd,
            Render714Error::OamdStateUninitialized => StarmineAdStatus::OamdStateUninitialized,
            Render714Error::ObjectCountMismatch { .. } => StarmineAdStatus::ObjectCountMismatch,
            Render714Error::BedChannelCountMismatch { .. } => StarmineAdStatus::BedChannelCountMismatch,
            Render714Error::UnsupportedSampleCount(_) => StarmineAdStatus::UnsupportedSampleCount,
            Render714Error::UnsupportedBedChannel(_) => StarmineAdStatus::UnsupportedBedChannel,
            Render714Error::SampleRateChanged { .. } => StarmineAdStatus::SampleRateChanged,
        }
    }

    /// The status that reports a TrueHD error, chosen by its kind.
    pub fn from_truehd_error(error: &TrueHdError) -> (s: Self)
        ensures
            s == spec_status_from_truehd_kind(error.kind),
    {
        match error.kind {
            TrueHdErrorKind::Parse => StarmineAdStatus::TrueHdParse,
            TrueHdErrorKind::Decode => StarmineAdStatus::TrueHdDecode,
            TrueHdErrorKind::UnsupportedLayout => StarmineAdStatus::TrueHdUnsupportedLayout,
            TrueHdErrorKind::InvalidMetadata => StarmineAdStatus::TrueHdInvalidMetadata,
        }
    }
}

/// Speaker / bed channel identifier of the C interface.
#[derive(Debug, Clone, Copy, PartialEq, Eq, Structural)]
pub enum StarmineAdBedChannel {
    Unknown,
    FrontLeft,
    FrontRight,
    Center,
    LowFrequencyEffects,
    SurroundLeft,
    SurroundRight,
    RearLeft,
    RearRight,
    TopFrontLeft,
    TopFrontRight,
    TopSurroundLeft,
    TopSurroundRight,
    TopRearLeft,
    TopRearRight,
    WideLeft,
    WideRight,
    LowFrequencyEffects2,
}

/// The C value of a bed channel identifier.
pub open spec fn spec_bed_code(channel: StarmineAdBedChannel) -> int {
    match channel {
        StarmineAdBedChannel::Unknown => -1,
        StarmineAdBedChannel::FrontLeft => 0,
        StarmineAdBedChannel::FrontRight => 1,
        StarmineAdBedChannel::Center => 2,
        StarmineAdBedChannel::LowFrequencyEffects => 3,
        StarmineAdBedChannel::SurroundLeft => 4,
        StarmineAdBedChannel::SurroundRight => 5,
        StarmineAdBedChannel::RearLeft => 6,
        StarmineAdBedChannel::RearRight => 7,
        StarmineAdBedChannel::TopFrontLeft => 8,
        StarmineAdBedChannel::TopFrontRight => 9,
        StarmineAdBedChannel::TopSurroundLeft => 10,
        StarmineAdBedChannel::TopSurroundRight => 11,
        StarmineAdBedChannel::TopRearLeft => 12,
        StarmineAdBedChannel::TopRearRight => 13,
        StarmineAdBedChannel::WideLeft => 14,
        StarmineAdBedChannel::WideRight => 15,
        StarmineAdBedChannel::LowFrequencyEffects2 => 16,
    }
}

/// The C identifier of a bed channel.
pub open spec fn spec_bed_channel_id(channel: BedChannel) -> StarmineAdBedChannel {
    match channel {
        BedChannel::FrontLeft => StarmineAdBedChannel::FrontLeft,
        BedChannel::FrontRight => StarmineAdBedChannel::FrontRight,
        BedChannel::Center => StarmineAdBedChannel::Center,
        BedChannel::LowFrequencyEffects => StarmineAdBedChannel::LowFrequencyEffects,
        BedChannel::SurroundLeft => StarmineAdBedChannel::SurroundLeft,
        BedChannel::SurroundRight => StarmineAdBedChannel::SurroundRight,
        BedChannel::RearLeft => StarmineAdBedChannel::RearLeft,
        BedChannel::RearRight => StarmineAdBedChannel::RearRight,
        BedChannel::TopFrontLeft => StarmineAdBedChannel::TopFrontLeft,
        BedChannel::TopFrontRight => StarmineAdBedChannel::TopFrontRight,
        BedChannel::TopSurroundLeft => StarmineAdBedChannel::TopSurroundLeft,
        BedChannel::TopSurroundRight => StarmineAdBedChannel::TopSurroundRight,
        BedChannel::TopRearLeft => StarmineAdBedChannel::TopRearLeft,
        BedChannel::TopRearRight => StarmineAdBedChannel::TopRearRight,
        BedChannel::WideLeft => StarmineAdBedChannel::WideLeft,
        BedChannel::WideRight => StarmineAdBedChannel::WideRight,
        BedChannel::LowFrequencyEffects2 => StarmineAdBedChannel::LowFrequencyEffects2,
    }
}

impl StarmineAdBedChannel {
    /// The C value of the identifier.
    pub fn code(self) -> (c: i32)
        ensures
            c == spec_bed_code(self),
    {
        match self {
            StarmineAdBedChannel::Unknown => -1,
            StarmineAdBedChannel::FrontLeft => 0,
            StarmineAdBedChannel::FrontRight => 1,
            StarmineAdBedChannel::Center => 2,
            StarmineAdBedChannel::LowFrequencyEffects => 3,
            StarmineAdBedChannel::SurroundLeft => 4,
            StarmineAdBedChannel::SurroundRight => 5,
            StarmineAdBedChannel::RearLeft => 6,
            StarmineAdBedChannel::RearRight => 7,
            StarmineAdBedChannel::TopFrontLeft => 8,
            StarmineAdBedChannel::TopFrontRight => 9,
            StarmineAdBedChannel::TopSurroundLeft => 10,
            StarmineAdBedChannel::TopSurroundRight => 11,
            StarmineAdBedChannel::TopRearLeft => 12,
            StarmineAdBedChannel::TopRearRight => 13,
            StarmineAdBedChannel::WideLeft => 14,
            StarmineAdBedChannel::WideRight => 15,
            StarmineAdBedChannel::LowFrequencyEffects2 => 16,
        }
    }
}

impl From<BedChannel> for StarmineAdBedChannel {
    fn from(channel: BedChannel) -> (r: Self) {
        match channel {
            BedChannel::FrontLeft => StarmineAdBedChannel::FrontLeft,
            BedChannel::FrontRight => StarmineAdBedChannel::FrontRight,
            BedChannel::Center => StarmineAdBedChannel::Center,
            BedChannel::LowFrequencyEffects => StarmineAdBedChannel::LowFrequencyEffects,
            BedChannel::SurroundLeft => StarmineAdBedChannel::SurroundLeft,
            BedChannel::SurroundRight => StarmineAdBedChannel::SurroundRight,
            BedChannel::RearLeft => StarmineAdBedChannel::RearLeft,
            BedChannel::RearRight => StarmineAdBedChannel::RearRight,
            BedChannel::TopFrontLeft => StarmineAdBedChannel::TopFrontLeft,
            BedChannel::TopFrontRight => StarmineAdBedChannel::TopFrontRight,
            BedChannel::TopSurroundLeft => StarmineAdBedChannel::TopSurroundLeft,
            BedChannel::TopSurroundRight => StarmineAdBedChannel::TopSurroundRight,
            BedChannel::TopRearLeft => StarmineAdBedChannel::TopRearLeft,
            BedChannel::TopRearRight => StarmineAdBedChannel::TopRearRight,
            BedChannel::WideLeft => StarmineAdBedChannel::WideLeft,
            BedChannel::WideRight => StarmineAdBedChannel::WideRight,
            BedChannel::LowFrequencyEffects2 => StarmineAdBedChannel::LowFrequencyEffects2,
        }
    }
}

impl vstd::std_specs::convert::FromSpecImpl<BedChannel> for StarmineAdBedChannel {
    open spec fn obeys_from_spec() -> bool {
        true
    }

    open spec fn from_spec(channel: BedChannel) -> StarmineAdBedChannel {
        spec_bed_channel_id(channel)
    }
}

/// The C code of a frame type.
pub open spec fn spec_frame_type_code(t: FrameType) -> u8 {
    match t {
        FrameType::Independent => 0,
        FrameType::Dependent => 1,
        FrameType::Ac3Convert => 2,
    }
}

/// Snapshot of one parsed E-AC-3 access unit for the C interface.
#[derive(Debug, Clone, Copy, PartialEq, Eq)]
pub struct StarmineAdEac3AccessUnitInfo {
    pub frame_size: u32,
    pub bitstream_id: u8,
    pub frame_type: u8,
    pub substreamid: u8,
    pub sample_rate: u32,
    pub num_blocks: u8,
    pub channel_mode: u8,
    pub channels: u8,
    pub lfe_on: u8,
    pub addbsi_present: u8,
    pub extension_type_a: u8,
    pub complexity_index_type_a: u8,
    pub emdf_block_count: u32,
    pub payload_count: u32,
    pub joc_payload_count: u32,
    pub oamd_payload_count: u32,
    pub has_first_emdf_sync_offset: u8,
    pub first_emdf_sync_offset: u32,
    pub frames_seen: u64,
}

/// `1` for true, `0` for false.
pub open spec fn flag_byte(b: bool) -> u8 {
    if b {
        1
    } else {
        0
    }
}

impl StarmineAdEac3AccessUnitInfo {
    /// The snapshot of `info` after `frames_seen` frames; counts and offsets keep their low
    /// 32 bits.
    pub fn from_parts(info: &AccessUnitInfo, frames_seen: u64) -> (r: Self)
        ensures
            r.frame_size == info.frame_size as u32,
            r.bitstream_id == info.bitstream_id,
            r.frame_type == spec_frame_type_code(info.frame_type),
            r.substreamid == info.substreamid,
            r.sample_rate == info.sample_rate,
            r.num_blocks == info.num_blocks,
            r.channel_mode == info.channel_mode,
            r.channels == info.channels,
            r.lfe_on == flag_byte(info.lfe_on),
            r.addbsi_present == flag_byte(info.addbsi_present),
            r.extension_type_a == flag_byte(info.extension_type_a),
            r.complexity_index_type_a == info.complexity_index_type_a,
            r.emdf_block_count == info.emdf_block_count as u32,
            r.payload_count == spec_all_payloads(info@.emdf_blocks).len() as u32,
            r.joc_payload_count == spec_count_id(spec_all_payloads(info@.emdf_blocks), 14) as u32,
            r.oamd_payload_count == spec_count_id(spec_all_payloads(info@.emdf_blocks), 11) as u32,
            r.has_first_emdf_sync_offset == flag_byte(info.first_emdf_sync_offset is Some),
            r.first_emdf_sync_offset == match info.first_emdf_sync_offset {
                Some(o) => o as u32,
                None => 0u32,
            },
            r.frames_seen == frames_seen,
    {
        let payloads = info.payloads();
        StarmineAdEac3AccessUnitInfo {
            frame_size: info.frame_size as u32,
            bitstream_id: info.bitstream_id,
            frame_type: match info.frame_type {
                FrameType::Independent => 0,
                FrameType::Dependent => 1,
                FrameType::Ac3Convert => 2,
            },
            substreamid: info.substreamid,
            sample_rate: info.sample_rate,
            num_blocks: info.num_blocks,
            channel_mode: info.channel_mode,
            channels: info.channels,
            lfe_on: if info.lfe_on {
                1
            } else {
                0
            },
            addbsi_present: if info.addbsi_present {
                1
            } else {
                0
            },
            extension_type_a: if info.extension_type_a {
                1
            } else {
                0
            },
            complexity_index_type_a: info.complexity_index_type_a,
            emdf_block_count: info.emdf_block_count as u32,
            payload_count: payloads.len() as u32,
            joc_payload_count: info.joc_payload_count() as u32,
            oamd_payload_count: info.oamd_payload_count() as u32,
            has_first_emdf_sync_offset: if info.first_emdf_sync_offset.is_some() {
                1
            } else {
                0
            },
            first_emdf_sync_offset: match info.first_emdf_sync_offset {
                Some(o) => o as u32,
                None => 0,
            },
            frames_seen,
        }
    }
}

/// Snapshot of one decoded TrueHD access unit for the C interface.
#[derive(Debug, Clone, Copy, PartialEq, Eq)]
pub struct StarmineAdTrueHdAccessUnitInfo {
    pub has_frame: u8,
    pub substream_info_changed: u8,
    pub sample_rate: u32,
    pub samples_per_channel: u32,
    pub bed_channel_count: u32,
    pub object_count: u32,
    pub metadata_update_count: u32,
    pub access_units_seen: u64,
    pub frames_seen: u64,
}

impl StarmineAdTrueHdAccessUnitInfo {
    /// The snapshot with no frame and nothing seen.
    pub fn empty() -> (r: Self)
        ensures
            r == (StarmineAdTrueHdAccessUnitInfo {
                has_frame: 0,
                substream_info_changed: 0,
                sample_rate: 0,
                samples_per_channel: 0,
                bed_channel_count: 0,
                object_count: 0,
                metadata_update_count: 0,
                access_units_seen: 0,
                frames_seen: 0,
            }),
    {
        StarmineAdTrueHdAccessUnitInfo {
            has_frame: 0,
            substream_info_changed: 0,
            sample_rate: 0,
            samples_per_channel: 0,
            bed_channel_count: 0,
            object_count: 0,
            metadata_update_count: 0,
            access_units_seen: 0,
            frames_seen: 0,
        }
    }

    /// The snapshot of a decoder that produced no frame: only its counters.
    pub fn from_decoder_no_frame(decoder: &ObjectPcmDecoder) -> (r: Self)
        ensures
            r == (StarmineAdTrueHdAccessUnitInfo {
                access_units_seen: decoder.access_units_seen,
                frames_seen: decoder.frames_seen,
                ..Self::empty_spec()
            }),
    {
        StarmineAdTrueHdAccessUnitInfo {
            access_units_seen: decoder.access_units_seen(),
            frames_seen: decoder.frames_seen(),
            ..Self::empty()
        }
    }

    /// The snapshot of an access unit that produced an object frame, from what the frame
    /// carries: sample rate, samples per channel, bed and object channel counts and metadata
    /// updates (each count kept in 32 bits, as the C struct holds it), and the decoder's
    /// counters.
    pub fn from_result(
        substream_info_changed: bool,
        sample_rate: u32,
        samples_per_channel: usize,
        bed_channel_count: usize,
        object_count: usize,
        metadata_update_count: usize,
        access_units_seen: u64,
        frames_seen: u64,
    ) -> (r: Self)
        ensures
            r == (StarmineAdTrueHdAccessUnitInfo {
                has_frame: 1,
                substream_info_changed: if substream_info_changed {
                    1u8
                } else {
                    0u8
                },
                sample_rate,
                samples_per_channel: samples_per_channel as u32,
                bed_channel_count: bed_channel_count as u32,
                object_count: object_count as u32,
                metadata_update_count: metadata_update_count as u32,
                access_units_seen,
                frames_seen,
            }),
    {
        StarmineAdTrueHdAccessUnitInfo {
            has_frame: 1,
            substream_info_changed: if substream_info_changed {
                1
            } else {
                0
            },
            sample_rate,
            samples_per_channel: samples_per_channel as u32,
            bed_channel_count: bed_channel_count as u32,
            object_count: object_count as u32,
            metadata_update_count: metadata_update_count as u32,
            access_units_seen,
            frames_seen,
        }
    }

    /// The snapshot with no frame and nothing seen.
    pub open spec fn empty_spec() -> Self {
        StarmineAdTrueHdAccessUnitInfo {
            has_frame: 0,
            substream_info_changed: 0,
            sample_rate: 0,
            samples_per_channel: 0,
            bed_channel_count: 0,
            object_count: 0,
            metadata_update_count: 0,
            access_units_seen: 0,
            frames_seen: 0,
        }
    }
}

/// The check a TrueHD access unit passes before decoding: its 12-bit length in 16-bit words
/// (first two bytes) must match the bytes given.
pub open spec fn spec_validate_truehd_access_unit(access_unit: Seq<u8>) -> Result<(), StarmineAdStatus> {
    if access_unit.len() < 2 {
        Err(StarmineAdStatus::ShortPacket)
    } else {
        let expected = (((access_unit[0] as int) % 16) * 256 + access_unit[1] as int) * 2;
        if access_unit.len() < expected {
            Err(StarmineAdStatus::TruncatedFrame)
        } else if access_unit.len() != expected {
            Err(StarmineAdStatus::TrailingData)
        } else {
            Ok(())
        }
    }
}

/// Checks that a TrueHD access unit is exactly as long as its header says.
pub fn validate_truehd_access_unit(access_unit: &[u8]) -> (r: Result<(), StarmineAdStatus>)
    ensures
        r == spec_validate_truehd_access_unit(access_unit@),
{
    if access_unit.len() < 2 {
        return Err(StarmineAdStatus::ShortPacket);
    }
    let expected = ((access_unit[0] % 16) as usize * 256 + access_unit[1] as usize) * 2;
    if access_unit.len() < expected {
        return Err(StarmineAdStatus::TruncatedFrame);
    }
    if access_unit.len() != expected {
        return Err(StarmineAdStatus::TrailingData);
    }
    Ok(())
}

} // verus!
