use starmine_ad::renderer::{
    fix_incomplete_layer, map_bed_channel_to_714, route_bed_channels, validate_sample_counts,
    BedChannel, BedRoute, Render714Error, RENDER_714_CHANNELS, RENDER_714_CHANNEL_ORDER,
};

#[test]
fn render_714_channel_order_is_stable() {
    assert_eq!(RENDER_714_CHANNEL_ORDER.len(), RENDER_714_CHANNELS);
    assert_eq!(RENDER_714_CHANNEL_ORDER[0], BedChannel::FrontLeft);
    assert_eq!(RENDER_714_CHANNEL_ORDER[3], BedChannel::LowFrequencyEffects);
    assert_eq!(RENDER_714_CHANNEL_ORDER[11], BedChannel::TopRearRight);
}

#[test]
fn direct_bed_mapping_matches_714_layout() {
    assert_eq!(map_bed_channel_to_714(BedChannel::FrontLeft), Some(0));
    assert_eq!(map_bed_channel_to_714(BedChannel::RearRight), Some(5));
    assert_eq!(map_bed_channel_to_714(BedChannel::TopRearLeft), Some(10));
    assert_eq!(map_bed_channel_to_714(BedChannel::WideLeft), None);
}

#[test]
fn every_output_index_maps_back_to_itself() {
    for (index, channel) in RENDER_714_CHANNEL_ORDER.iter().enumerate() {
        assert_eq!(map_bed_channel_to_714(*channel), Some(index));
    }
    assert_eq!(map_bed_channel_to_714(BedChannel::TopSurroundLeft), None);
    assert_eq!(map_bed_channel_to_714(BedChannel::LowFrequencyEffects2), None);
}

#[test]
fn incomplete_layer_is_filled_from_its_partners() {
    let mut fl = Some(8);
    let mut fr = None;
    let mut rl = None;
    let mut rr = None;
    fix_incomplete_layer(&mut fl, &mut fr, &mut rl, &mut rr);
    assert_eq!((fl, fr, rl, rr), (Some(8), Some(8), Some(8), Some(8)));

    let mut fl = None;
    let mut fr = None;
    let mut rl = None;
    let mut rr = Some(11);
    fix_incomplete_layer(&mut fl, &mut fr, &mut rl, &mut rr);
    assert_eq!((fl, fr, rl, rr), (Some(11), Some(11), Some(11), Some(11)));

    let mut fl = Some(8);
    let mut fr = Some(9);
    let mut rl = None;
    let mut rr = Some(11);
    fix_incomplete_layer(&mut fl, &mut fr, &mut rl, &mut rr);
    assert_eq!((fl, fr, rl, rr), (Some(8), Some(9), Some(11), Some(11)));

    let mut fl = None;
    let mut fr = None;
    let mut rl = None;
    let mut rr = None;
    fix_incomplete_layer(&mut fl, &mut fr, &mut rl, &mut rr);
    assert_eq!((fl, fr, rl, rr), (None, None, None, None));
}

#[test]
fn mismatched_channel_lengths_name_the_first_odd_length() {
    let err = validate_sample_counts(&[65, 64], &[]).expect_err("mismatched lengths should fail");
    assert_eq!(err.to_string(), "unsupported-sample-count 64");
    assert_eq!(validate_sample_counts(&[64, 64], &[64, 64, 64]), Ok(64));
    assert_eq!(validate_sample_counts(&[], &[32, 32]), Ok(32));
    assert_eq!(validate_sample_counts(&[], &[]), Ok(0));
    assert_eq!(
        validate_sample_counts(&[10, 10], &[10, 9, 8]),
        Err(Render714Error::UnsupportedSampleCount(9))
    );
}

#[test]
fn bed_routes_follow_channel_labels() {
    let routes = route_bed_channels(
        &[BedChannel::FrontRight, BedChannel::FrontLeft],
        &[BedChannel::FrontLeft, BedChannel::FrontRight],
        2,
    )
    .expect("reordered labels should route");
    assert_eq!(
        routes,
        vec![
            BedRoute { input_index: 1, output_index: 0, lfe_send: false },
            BedRoute { input_index: 0, output_index: 1, lfe_send: false },
        ]
    );

    let routes = route_bed_channels(
        &[BedChannel::FrontLeft],
        &[BedChannel::FrontLeft, BedChannel::FrontLeft],
        2,
    )
    .expect("duplicate metadata beds should reuse the labeled input");
    assert_eq!(routes.len(), 2);
    assert!(routes.iter().all(|route| route.input_index == 0 && route.output_index == 0));

    let routes = route_bed_channels(&[BedChannel::LowFrequencyEffects], &[BedChannel::LowFrequencyEffects], 1)
        .expect("LFE routes");
    assert_eq!(routes[0].output_index, 3);
    assert!(routes[0].lfe_send);
}

#[test]
fn bed_routing_reports_missing_and_unsupported_channels() {
    assert_eq!(
        route_bed_channels(&[BedChannel::FrontLeft], &[BedChannel::FrontLeft], 2),
        Err(Render714Error::BedChannelCountMismatch { expected: 1, provided: 2 })
    );
    assert_eq!(
        route_bed_channels(
            &[BedChannel::FrontLeft],
            &[BedChannel::Center, BedChannel::FrontLeft, BedChannel::Center],
            3
        ),
        Err(Render714Error::BedChannelCountMismatch { expected: 2, provided: 0 })
    );
    assert_eq!(
        route_bed_channels(&[BedChannel::LowFrequencyEffects2], &[BedChannel::LowFrequencyEffects2], 1),
        Err(Render714Error::UnsupportedBedChannel(BedChannel::LowFrequencyEffects2))
    );
}
