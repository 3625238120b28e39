use starmine_ad::ffi::{
    validate_truehd_access_unit, StarmineAdBedChannel, StarmineAdStatus,
    StarmineAdTrueHdAccessUnitInfo,
};
use starmine_ad::renderer::{BedChannel, Render714Error};
use starmine_ad::syncframe::ParseError;
use starmine_ad::truehd::{ObjectPcmDecoder, TrueHdError};

#[test]
fn bed_channel_count_mismatch_uses_bed_status() {
    let status = StarmineAdStatus::from_render_error(Render714Error::BedChannelCountMismatch {
        expected: 2,
        provided: 1,
    });
    assert_eq!(status, StarmineAdStatus::BedChannelCountMismatch);
}

#[test]
fn bed_channel_count_mismatch_status_string_is_stable() {
    let value = StarmineAdStatus::BedChannelCountMismatch.status_string();
    assert_eq!(value, "bed-channel-count-mismatch");
}

#[test]
fn status_codes_match_the_c_values() {
    assert_eq!(StarmineAdStatus::Success.code(), 0);
    assert_eq!(StarmineAdStatus::Success.status_string(), "ok");
    assert_eq!(StarmineAdStatus::NullPointer.code(), -1);
    assert_eq!(StarmineAdStatus::BedChannelCountMismatch.code(), -15);
    assert_eq!(StarmineAdStatus::TrueHdInvalidMetadata.code(), -19);
    assert_eq!(StarmineAdStatus::TrueHdInvalidMetadata.status_string(), "truehd-invalid-metadata");
}

#[test]
fn parse_and_truehd_errors_map_to_their_statuses() {
    assert_eq!(
        StarmineAdStatus::from_parse_error(ParseError::InvalidHeader("bsid")),
        StarmineAdStatus::InvalidHeader
    );
    assert_eq!(
        StarmineAdStatus::from_parse_error(ParseError::TruncatedFrame { expected: 4, available: 2 }),
        StarmineAdStatus::TruncatedFrame
    );
    assert_eq!(
        StarmineAdStatus::from_truehd_error(&TrueHdError::decode(String::from("x"))),
        StarmineAdStatus::TrueHdDecode
    );
    assert_eq!(
        StarmineAdStatus::from_truehd_error(&TrueHdError::unsupported_layout(String::from("x"))),
        StarmineAdStatus::TrueHdUnsupportedLayout
    );
}

#[test]
fn bed_channel_codes_follow_the_bed_order() {
    let id: StarmineAdBedChannel = BedChannel::TopRearLeft.into();
    assert_eq!(id, StarmineAdBedChannel::TopRearLeft);
    assert_eq!(id.code(), 12);
    assert_eq!(StarmineAdBedChannel::Unknown.code(), -1);
    let lfe2: StarmineAdBedChannel = BedChannel::LowFrequencyEffects2.into();
    assert_eq!(lfe2.code(), 16);
}

#[test]
fn truehd_access_unit_length_is_checked() {
    assert_eq!(validate_truehd_access_unit(&[0x00]), Err(StarmineAdStatus::ShortPacket));
    let mut unit = vec![0u8; 8];
    unit[1] = 4;
    assert_eq!(validate_truehd_access_unit(&unit), Ok(()));
    assert_eq!(validate_truehd_access_unit(&unit[..6]), Err(StarmineAdStatus::TruncatedFrame));
    unit.push(0);
    assert_eq!(validate_truehd_access_unit(&unit), Err(StarmineAdStatus::TrailingData));
    let mut masked = vec![0u8; 8];
    masked[0] = 0xF0;
    masked[1] = 4;
    assert_eq!(validate_truehd_access_unit(&masked), Ok(()));
}

#[test]
fn truehd_snapshot_without_frame_keeps_counters() {
    let decoder = ObjectPcmDecoder::new();
    let info = StarmineAdTrueHdAccessUnitInfo::from_decoder_no_frame(&decoder);
    assert_eq!(info, StarmineAdTrueHdAccessUnitInfo::empty());
    assert_eq!(info.has_frame, 0);
}

#[test]
fn render_error_texts_name_their_values() {
    assert_eq!(Render714Error::MissingOamd.to_string(), "missing-oamd");
    assert_eq!(
        Render714Error::BedChannelCountMismatch { expected: 10, provided: 8 }.to_string(),
        "bed-channel-count-mismatch expected=10 provided=8"
    );
    assert_eq!(
        Render714Error::UnsupportedSampleCount(64).to_string(),
        "unsupported-sample-count 64"
    );
    assert_eq!(
        Render714Error::UnsupportedBedChannel(BedChannel::LowFrequencyEffects2).to_string(),
        "unsupported-bed-channel LowFrequencyEffects2"
    );
    assert_eq!(
        Render714Error::SampleRateChanged { expected: 48000, provided: 44100 }.to_string(),
        "sample-rate-changed expected=48000 provided=44100"
    );
}

#[test]
fn truehd_result_snapshot_keeps_counts_in_32_bits() {
    let info = StarmineAdTrueHdAccessUnitInfo::from_result(true, 48_000, 40, 10, 6, 2, 7, 3);
    assert_eq!(info.has_frame, 1);
    assert_eq!(info.substream_info_changed, 1);
    assert_eq!(info.sample_rate, 48_000);
    assert_eq!(info.samples_per_channel, 40);
    assert_eq!(info.bed_channel_count, 10);
    assert_eq!(info.object_count, 6);
    assert_eq!(info.metadata_update_count, 2);
    assert_eq!(info.access_units_seen, 7);
    assert_eq!(info.frames_seen, 3);
    let wide = StarmineAdTrueHdAccessUnitInfo::from_result(false, 1, (1usize << 32) + 5, 0, 0, 0, 0, 0);
    assert_eq!(wide.substream_info_changed, 0);
    assert_eq!(wide.samples_per_channel, 5);
}
