use starmine_ad::renderer::BedChannel;
use starmine_ad::syncframe::core_state::{fullband_channel_order, CoreDecodeState};
use starmine_ad::syncframe::ParseError;

#[test]
fn channel_modes_map_to_bed_layouts() {
    assert_eq!(fullband_channel_order(1), Ok(vec![BedChannel::Center]));
    assert_eq!(
        fullband_channel_order(7),
        Ok(vec![
            BedChannel::FrontLeft,
            BedChannel::Center,
            BedChannel::FrontRight,
            BedChannel::SurroundLeft,
            BedChannel::SurroundRight,
        ])
    );
    assert_eq!(fullband_channel_order(6).map(|order| order.len()), Ok(4));
    assert_eq!(
        fullband_channel_order(0),
        Err(ParseError::UnsupportedFeature("channel-mode-pcm"))
    );
    assert_eq!(
        fullband_channel_order(5),
        Err(ParseError::UnsupportedFeature("channel-mode-pcm"))
    );
    assert_eq!(fullband_channel_order(8), Err(ParseError::InvalidHeader("channel-mode")));
}

#[test]
fn block_syntax_exists_only_after_configuration() {
    let mut state = CoreDecodeState::new();
    assert_eq!(
        state.block_syntax_mut().err(),
        Some(ParseError::InvalidHeader("core-decode-state"))
    );
    state.reconfigure(5, true, 0);
    assert_eq!(state.block_syntax_mut().expect("configured").chbwcod.len(), 5);
    state.reset();
    assert!(state.block_syntax_mut().is_err());
}

#[test]
fn same_configuration_keeps_block_syntax() {
    let mut state = CoreDecodeState::new();
    state.reconfigure(2, false, 1);
    state.block_syntax_mut().expect("configured").csnr_offset = 17;
    state.reconfigure(2, false, 1);
    assert_eq!(state.block_syntax_mut().expect("configured").csnr_offset, 17);
    state.reconfigure(2, true, 1);
    let fresh = state.block_syntax_mut().expect("configured");
    assert_ne!(fresh.csnr_offset, 17);
    assert!(fresh.lfe_on);
}
