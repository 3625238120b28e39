use starmine_ad::renderer::BedChannel;
use starmine_ad::truehd::{
    bed_channel_from_label, layout_from_channel_labels, layout_from_oamd,
    layout_from_oamd_payloads, metadata_update_sample_offset, metadata_update_sample_offsets,
    resolve_layout, ChannelLabel, FailLevel, OamdElementInfo, OamdInfo, ObjectPcmDecoder,
    TrueHdErrorKind,
};

#[test]
fn truehd_label_map_matches_renderer_channels() {
    assert_eq!(
        bed_channel_from_label(ChannelLabel::L),
        Some(BedChannel::FrontLeft)
    );
    assert_eq!(
        bed_channel_from_label(ChannelLabel::R),
        Some(BedChannel::FrontRight)
    );
    assert_eq!(
        bed_channel_from_label(ChannelLabel::LFE2),
        Some(BedChannel::LowFrequencyEffects2)
    );
    assert_eq!(bed_channel_from_label(ChannelLabel::Cb), None);
}

#[test]
fn labels_give_beds_and_remaining_objects() {
    let labels = [ChannelLabel::L, ChannelLabel::R, ChannelLabel::C];
    let layout = layout_from_channel_labels(&labels, 10)
        .expect("labels map to beds")
        .expect("labels give a layout");
    assert_eq!(
        layout.bed_channel_order,
        vec![BedChannel::FrontLeft, BedChannel::FrontRight, BedChannel::Center]
    );
    assert_eq!(layout.dynamic_object_count, 7);
    assert_eq!(layout_from_channel_labels(&labels, 2).unwrap(), None);
    assert_eq!(layout_from_channel_labels(&[], 2).unwrap(), None);
}

#[test]
fn unknown_label_is_an_unsupported_layout() {
    let err = layout_from_channel_labels(&[ChannelLabel::L, ChannelLabel::Cb], 4)
        .expect_err("Cb has no bed channel");
    assert_eq!(err.kind, TrueHdErrorKind::UnsupportedLayout);
    assert_eq!(err.kind_name(), "unsupported-layout");
    assert_eq!(err.message, "unsupported TrueHD bed label Cb");
}

#[test]
fn cached_layout_is_reused_when_it_fits() {
    let cached = layout_from_channel_labels(&[ChannelLabel::L, ChannelLabel::R], 6)
        .unwrap()
        .unwrap();
    let again = resolve_layout(Some(&cached), &[], 6, &[]).expect("cached layout fits");
    assert_eq!(again, cached);
    let err = resolve_layout(Some(&cached), &[], 7, &[]).expect_err("cached layout does not fit");
    assert_eq!(
        err.message,
        "unable to resolve layout for channel_count=7 labels=[]"
    );
    let err = resolve_layout(None, &[ChannelLabel::L, ChannelLabel::R, ChannelLabel::C], 2, &[])
        .expect_err("too many labels");
    assert_eq!(
        err.message,
        "unable to resolve layout for channel_count=2 labels=[L, R, C]"
    );
}

#[test]
fn decoder_counts_access_units_and_object_frames() {
    let mut decoder = ObjectPcmDecoder::new();
    assert_eq!(decoder.access_units_seen(), 0);
    let beds_only = decoder
        .accept_decoded_layout(&[ChannelLabel::L, ChannelLabel::R], 2, &[])
        .expect("bed-only layout");
    assert_eq!(beds_only, None);
    assert_eq!(decoder.access_units_seen(), 1);
    assert_eq!(decoder.frames_seen(), 0);
    let with_objects = decoder
        .accept_decoded_layout(&[ChannelLabel::L, ChannelLabel::R], 5, &[])
        .expect("layout with objects")
        .expect("objects present");
    assert_eq!(with_objects.0.dynamic_object_count, 3);
    assert!(with_objects.1.is_empty());
    assert_eq!(decoder.access_units_seen(), 2);
    assert_eq!(decoder.frames_seen(), 1);
    assert_eq!(decoder.fail_level, FailLevel::Error);
    decoder.set_fail_level(FailLevel::Warn);
    assert_eq!(decoder.fail_level, FailLevel::Warn);
    decoder.reset();
    assert_eq!(decoder.fail_level, FailLevel::Error);
    assert_eq!(decoder.access_units_seen(), 0);
    assert_eq!(decoder.frames_seen(), 0);
    assert!(decoder.layout.is_none());
}

#[test]
fn truehd_error_text_joins_kind_and_message() {
    let err = starmine_ad::truehd::TrueHdError::unsupported_layout(String::from("bad bed"));
    assert_eq!(err.to_string(), "truehd-unsupported-layout bad bed");
    let err = starmine_ad::truehd::TrueHdError::parse(String::new());
    assert_eq!(err.to_string(), "truehd-parse ");
}

fn oamd(isf: usize, beds: &[usize], dynamic: usize) -> OamdInfo {
    OamdInfo {
        num_isf_objects: isf,
        bed_indices: beds.to_vec(),
        num_dynamic_objects: dynamic,
        object_element: None,
        evo_sample_offset: 0,
    }
}

#[test]
fn oamd_bed_indices_name_bed_channels() {
    let layout = layout_from_oamd(&oamd(0, &[0, 1, 3, 16], 4)).expect("valid bed indices");
    assert_eq!(
        layout.bed_channel_order,
        vec![
            BedChannel::FrontLeft,
            BedChannel::FrontRight,
            BedChannel::LowFrequencyEffects,
            BedChannel::LowFrequencyEffects2,
        ]
    );
    assert_eq!(layout.dynamic_object_count, 4);
    let err = layout_from_oamd(&oamd(2, &[0], 1)).expect_err("ISF objects");
    assert_eq!(err.message, "ISF objects are not supported (count=2)");
    let err = layout_from_oamd(&oamd(0, &[0, 17, 18], 1)).expect_err("bad index");
    assert_eq!(err.kind, TrueHdErrorKind::UnsupportedLayout);
    assert_eq!(err.message, "unsupported bed channel index 17");
}

#[test]
fn oamd_payloads_must_agree() {
    assert_eq!(layout_from_oamd_payloads(&[]).expect("no payloads"), None);
    let same = layout_from_oamd_payloads(&[oamd(0, &[0, 1], 3), oamd(0, &[0, 1], 3)])
        .expect("agreeing payloads")
        .expect("a layout");
    assert_eq!(same.dynamic_object_count, 3);
    let err = layout_from_oamd_payloads(&[oamd(0, &[0, 1], 3), oamd(0, &[0, 1], 4)])
        .expect_err("disagreeing payloads");
    assert_eq!(
        err.message,
        "multiple OAMD payloads in one access unit disagree on bed/object layout"
    );
}

#[test]
fn oamd_layout_wins_over_labels_and_is_checked_against_channels() {
    let layout = resolve_layout(None, &[ChannelLabel::L], 3, &[oamd(0, &[0, 1], 1)])
        .expect("OAMD layout");
    assert_eq!(layout.bed_channel_order, vec![BedChannel::FrontLeft, BedChannel::FrontRight]);
    let mut decoder = ObjectPcmDecoder::new();
    let err = decoder
        .accept_decoded_layout(&[], 5, &[oamd(0, &[0, 1], 1)])
        .expect_err("2 beds and 1 object do not make 5 channels");
    assert_eq!(err.message, "channel-count mismatch decoded=5 bed=2 dynamic=1");
    assert_eq!(decoder.access_units_seen(), 1);
    assert_eq!(decoder.frames_seen(), 0);
    assert!(decoder.layout.is_none());
}

fn with_element(info: OamdInfo, sample_offset: usize, blocks: usize, evo: u64) -> OamdInfo {
    OamdInfo {
        object_element: Some(OamdElementInfo { sample_offset, num_obj_info_blocks: blocks }),
        evo_sample_offset: evo,
        ..info
    }
}

#[test]
fn metadata_updates_are_checked_in_order() {
    assert_eq!(metadata_update_sample_offset(&with_element(oamd(0, &[0], 1), 100, 1, 28)), Ok(128));
    assert_eq!(metadata_update_sample_offset(&oamd(0, &[0], 1)), Ok(0));
    let err = metadata_update_sample_offset(&with_element(oamd(0, &[0], 1), 65_000, 1, 536))
        .expect_err("offset too large");
    assert_eq!(err.kind, TrueHdErrorKind::InvalidMetadata);
    assert_eq!(err.message, "sample offset out of range: 65536");
    let err = metadata_update_sample_offset(&with_element(oamd(0, &[0], 1), 0, 2, 0))
        .expect_err("two info blocks");
    assert_eq!(err.kind, TrueHdErrorKind::InvalidMetadata);
    assert_eq!(err.message, "multi-block OAMD is not supported yet (blocks=2)");
    let err = metadata_update_sample_offset(&with_element(oamd(1, &[0], 1), 0, 2, 0))
        .expect_err("ISF objects come before the block count");
    assert_eq!(err.kind, TrueHdErrorKind::UnsupportedLayout);
    let offsets = metadata_update_sample_offsets(&[
        with_element(oamd(0, &[0], 1), 5, 1, 0),
        oamd(0, &[0], 1),
    ])
    .expect("both pass");
    assert_eq!(offsets, vec![5, 0]);
}

#[test]
fn refused_metadata_leaves_layout_and_frames_unchanged() {
    let mut decoder = ObjectPcmDecoder::new();
    decoder
        .accept_decoded_layout(&[], 3, &[oamd(0, &[0, 1], 1)])
        .expect("first access unit")
        .expect("objects present");
    assert_eq!(decoder.frames_seen(), 1);
    let err = decoder
        .accept_decoded_layout(&[], 4, &[with_element(oamd(0, &[0, 1, 2], 1), 0, 3, 0)])
        .expect_err("multi-block metadata");
    assert_eq!(err.kind, TrueHdErrorKind::InvalidMetadata);
    assert_eq!(decoder.access_units_seen(), 2);
    assert_eq!(decoder.frames_seen(), 1);
    assert_eq!(decoder.layout.as_ref().map(|l| l.bed_channel_order.len()), Some(2));
}

#[test]
fn frames_count_only_emitting_access_units() {
    let mut decoder = ObjectPcmDecoder::new();
    let outcomes = [
        decoder.accept_decoded_layout(&[ChannelLabel::L, ChannelLabel::R], 4, &[]).map(|r| r.is_some()),
        decoder.accept_decoded_layout(&[ChannelLabel::L, ChannelLabel::R], 2, &[]).map(|r| r.is_some()),
        decoder.accept_decoded_layout(&[ChannelLabel::Cb], 2, &[]).map(|r| r.is_some()),
        decoder.accept_decoded_layout(&[], 3, &[]).map(|r| r.is_some()),
    ];
    let emitted = outcomes.iter().filter(|o| matches!(o, Ok(true))).count() as u64;
    assert_eq!(decoder.access_units_seen(), 4);
    assert_eq!(decoder.frames_seen(), emitted);
    assert_eq!(emitted, 1);
}
