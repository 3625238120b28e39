use starmine_ad::syncframe::{
    collect_skip_fields, collect_skip_fields_without_block_start, inspect_access_unit,
    scan_emdf_blocks, AccessUnitInfo, AudioFrameInfo, AuxParseStatus, EmdfBlockInfo,
    EmdfPayloadInfo, EmdfSource, ExpStrategy, FrameType, ParseError, PayloadInfo, SkipFieldInfo,
};

fn push_bits(bits: &mut Vec<bool>, value: u32, width: usize) {
    for bit in (0..width).rev() {
        bits.push(((value >> bit) & 1) != 0);
    }
}

fn push_variable_bits(bits: &mut Vec<bool>, value: u32, width: usize) {
    push_bits(bits, value, width);
    bits.push(false);
}

fn bits_to_bytes(bits: &[bool], frame_size: usize) -> Vec<u8> {
    let mut bytes = vec![0u8; frame_size];
    for (index, bit) in bits.iter().copied().enumerate() {
        if bit {
            bytes[index >> 3] |= 1 << (7 - (index & 7));
        }
    }
    bytes
}

fn build_emdf_block(payload_id: u8, payload_bytes: &[u8]) -> Vec<u8> {
    let mut payload_bits = Vec::new();
    push_bits(&mut payload_bits, 0, 2);
    push_bits(&mut payload_bits, 0, 3);
    push_bits(&mut payload_bits, payload_id as u32, 5);
    push_bits(&mut payload_bits, 0, 1);
    push_bits(&mut payload_bits, 0, 1);
    push_bits(&mut payload_bits, 0, 1);
    push_bits(&mut payload_bits, 0, 1);
    push_bits(&mut payload_bits, 1, 1);
    push_variable_bits(&mut payload_bits, payload_bytes.len() as u32, 8);
    for &byte in payload_bytes {
        push_bits(&mut payload_bits, byte as u32, 8);
    }
    push_bits(&mut payload_bits, 0, 5);
    while payload_bits.len() % 8 != 0 {
        payload_bits.push(false);
    }

    let mut bits = Vec::new();
    push_bits(&mut bits, 0x5838, 16);
    push_bits(&mut bits, (payload_bits.len() / 8) as u32, 16);
    bits.extend(payload_bits);
    bits_to_bytes(&bits, bits.len().div_ceil(8))
}

fn build_minimal_eac3_frame(frame_size: usize) -> Vec<u8> {
    let mut bits = Vec::new();
    let frmsiz = ((frame_size / 2) - 1) as u32;

    push_bits(&mut bits, 0x0B77, 16);
    push_bits(&mut bits, 0, 2);
    push_bits(&mut bits, 0, 3);
    push_bits(&mut bits, frmsiz, 11);
    push_bits(&mut bits, 0, 2);
    push_bits(&mut bits, 3, 2);
    push_bits(&mut bits, 7, 3);
    push_bits(&mut bits, 1, 1);
    push_bits(&mut bits, 16, 5);
    push_bits(&mut bits, 0, 5);
    push_bits(&mut bits, 0, 1);
    push_bits(&mut bits, 0, 1);
    push_bits(&mut bits, 0, 1);
    push_bits(&mut bits, 0, 1);

    let mut bytes = vec![0u8; frame_size];
    for (index, bit) in bits.iter().copied().enumerate() {
        if bit {
            bytes[index >> 3] |= 1 << (7 - (index & 7));
        }
    }
    bytes
}

fn build_single_block_payload(skip_bytes: &[u8]) -> Vec<u8> {
    let mut bits = Vec::new();
    push_bits(&mut bits, 0, 1);
    push_bits(&mut bits, 0, 1);
    push_bits(&mut bits, 0, 6);
    push_bits(&mut bits, 0, 4);
    for _ in 0..6 {
        push_bits(&mut bits, 0, 7);
    }
    push_bits(&mut bits, 0, 2);
    push_bits(&mut bits, 0, 1);
    push_bits(&mut bits, 1, 1);
    push_bits(&mut bits, skip_bytes.len() as u32, 9);
    for &byte in skip_bytes {
        push_bits(&mut bits, byte as u32, 8);
    }
    bits_to_bytes(&bits, bits.len().div_ceil(8))
}

fn single_block_audio_frame() -> AudioFrameInfo {
    AudioFrameInfo {
        exponent_strategies_embedded: true,
        adaptive_hybrid_transform_enabled: false,
        snr_offset_strategy: 0,
        transient_processing_enabled: false,
        block_switching_enabled: false,
        dithering_enabled: false,
        bit_allocation_mode_enabled: false,
        frame_gain_syntax_enabled: false,
        delta_bit_allocation_enabled: false,
        skip_field_syntax_enabled: true,
        spectral_extension_attenuation_enabled: false,
        coupling_strategy_updates: vec![false],
        coupling_in_use: vec![false],
        coupling_exponent_strategy: vec![None],
        channel_exponent_strategy: vec![vec![ExpStrategy::D45]],
        lfe_exponent_strategy: Vec::new(),
        converter_exponent_strategy_present: false,
        converter_exponent_strategy: Vec::new(),
        frame_csnr_offset: Some(0),
        frame_fsnr_offset: Some(0),
        transient_processors: vec![None],
        spectral_extension_attenuation: vec![None],
        block_start_info_present: false,
        block_start_info_bit_len: 0,
        block_payload_start_bit_offset: 0,
    }
}

#[test]
fn inspects_minimal_access_unit() {
    let frame = build_minimal_eac3_frame(32);
    let info = inspect_access_unit(&frame).expect("access unit should parse");
    assert_eq!(info.frame_size, 32);
    assert_eq!(info.bitstream_id, 16);
    assert_eq!(info.frame_type, FrameType::Independent);
    assert_eq!(info.sample_rate, 48_000);
    assert_eq!(info.num_blocks, 6);
    assert!(info.lfe_on);
    assert_eq!(info.channels, 6);
    assert_eq!(info.fullband_channels, 5);
    assert_eq!(info.audio_frame.channel_exponent_strategy.len(), 6);
    assert_eq!(
        info.audio_frame.channel_exponent_strategy[0][0],
        ExpStrategy::D15
    );
    assert!(info.audio_frame.converter_exponent_strategy_present);
    assert_eq!(info.emdf_source, EmdfSource::Absent);
}

#[test]
fn rejects_short_input() {
    let err = inspect_access_unit(&[0x0B, 0x77, 0x00]).expect_err("short input");
    assert_eq!(err, ParseError::ShortPacket);
}

#[test]
fn extracts_aux_data_from_single_block_skip_field() {
    let emdf = build_emdf_block(14, &[0xAA]);
    assert_eq!(scan_emdf_blocks(&emdf).len(), 1);
    let block_payload = build_single_block_payload(&emdf);
    let audio_frame = single_block_audio_frame();

    let skip_fields = collect_skip_fields(
        &block_payload,
        FrameType::Independent,
        1,
        1,
        1,
        false,
        &audio_frame,
        None,
        block_payload.len() * 8,
        0,
    )
    .expect("single-block payload should parse");

    assert_eq!(skip_fields.len(), 1);
    assert_eq!(skip_fields[0].block_index, Some(0));
    assert_eq!(skip_fields[0].bytes, emdf);
    assert_eq!(scan_emdf_blocks(&skip_fields[0].bytes).len(), 1);
}

#[test]
fn accepts_zero_padded_tail_without_block_start_info() {
    let emdf = build_emdf_block(14, &[0xAA]);
    let mut block_payload = build_single_block_payload(&emdf);
    block_payload.extend_from_slice(&[0u8; 16]);
    let audio_frame = single_block_audio_frame();

    let skip_fields = collect_skip_fields_without_block_start(
        &block_payload,
        FrameType::Independent,
        1,
        1,
        1,
        false,
        &audio_frame,
        block_payload.len() * 8,
        0,
    )
    .expect("single-block payload with zero padding should parse");

    assert_eq!(skip_fields.len(), 1);
    assert_eq!(skip_fields[0].bytes, emdf);
}

#[test]
fn accepts_zero_padded_tail_with_footer_prefix_without_block_start_info() {
    let emdf = build_emdf_block(14, &[0xAA]);
    let mut block_payload = build_single_block_payload(&emdf);
    block_payload.extend_from_slice(&[0u8; 16]);
    block_payload.push(0x02);
    let audio_frame = single_block_audio_frame();

    let skip_fields = collect_skip_fields_without_block_start(
        &block_payload,
        FrameType::Independent,
        1,
        1,
        1,
        false,
        &audio_frame,
        block_payload.len() * 8,
        0,
    )
    .expect("single-block payload with footer prefix should parse");

    assert_eq!(skip_fields.len(), 1);
    assert_eq!(skip_fields[0].bytes, emdf);
}

#[test]
fn summary_of_minimal_access_unit_lists_header_fields() {
    let frame = build_minimal_eac3_frame(32);
    let info = inspect_access_unit(&frame).expect("access unit should parse");
    let summary = info.summary();
    assert!(summary.starts_with(
        "frame=32 bsid=16 type=independent ssid=0 sr=48000 blocks=6 acmod=7 ch=6 lfe=1 addbsi=0 extA=0 complexity=0 body="
    ));
    assert!(summary.contains(" expmode=frame-code skipfield=0 cpl=0/6 "));
    assert!(summary.ends_with(" emdfsrc=none emdf=0 payloads=0 joc=0 oamd=0"));
    assert!(!summary.contains("first_sync="));
}

fn payload(block: usize, id: u8, size: usize, offset: Option<u16>) -> EmdfPayloadInfo {
    EmdfPayloadInfo {
        info: PayloadInfo {
            emdf_block_index: block,
            payload_id: id,
            payload_size_bytes: size,
            sample_offset: offset,
        },
        bytes: vec![0u8; size],
    }
}

#[test]
fn summary_lists_payloads_in_block_order() {
    let mut audio_frame = single_block_audio_frame();
    audio_frame.coupling_in_use = vec![true, false, true];
    audio_frame.block_payload_start_bit_offset = 120;
    let info = AccessUnitInfo {
        frame_size: 768,
        bitstream_id: 16,
        frame_type: FrameType::Dependent,
        substreamid: 2,
        sample_rate: 44_100,
        num_blocks: 3,
        channel_mode: 2,
        channels: 2,
        fullband_channels: 2,
        lfe_on: false,
        addbsi_present: true,
        extension_type_a: true,
        complexity_index_type_a: 9,
        mixing_metadata_present: false,
        informational_metadata_present: false,
        addbsi_bytes: vec![1, 2],
        body_start_bit_offset: 97,
        audio_frame,
        skip_fields: vec![
            SkipFieldInfo { block_index: Some(0), bit_offset: 200, bytes: vec![1, 2, 3] },
            SkipFieldInfo { block_index: Some(2), bit_offset: 900, bytes: vec![4, 5] },
        ],
        trailing_aux_data: Vec::new(),
        aux_data: vec![1, 2, 3, 4, 5],
        aux_parse_status: AuxParseStatus::Extracted,
        emdf_source: EmdfSource::AuxData,
        emdf_blocks: vec![
            EmdfBlockInfo {
                sync_offset: 0,
                payloads: vec![payload(0, 11, 40, Some(256)), payload(0, 14, 7, None)],
            },
            EmdfBlockInfo { sync_offset: 4, payloads: vec![payload(1, 3, 1, None)] },
        ],
        emdf_block_count: 2,
        first_emdf_sync_offset: Some(0),
    };
    assert_eq!(info.payloads().len(), 3);
    assert_eq!(info.joc_payload_count(), 1);
    assert_eq!(info.oamd_payload_count(), 1);
    assert_eq!(info.skip_field_bytes_len(), 5);
    assert_eq!(
        info.summary(),
        "frame=768 bsid=16 type=dependent ssid=2 sr=44100 blocks=3 acmod=2 ch=2 lfe=0 addbsi=1 extA=1 complexity=9 \
body=97bit block0=120bit expmode=per-block skipfield=1 cpl=2/3 aux=5B skip=5B/2blk auxparse=extracted \
emdfsrc=aux-data emdf=2 payloads=3 joc=1 oamd=1 first_sync=0 payloads=[11/oamd:40B@256,14/joc:7B,3/unknown:1B]"
    );
}

#[test]
fn inspection_without_emdf_reports_absent_source() {
    let frame = build_minimal_eac3_frame(32);
    let info = inspect_access_unit(&frame).expect("access unit should parse");
    assert_eq!(info.emdf_source, EmdfSource::Absent);
    assert!(info.emdf_blocks.is_empty());
    assert_eq!(info.emdf_block_count, 0);
    assert_eq!(info.first_emdf_sync_offset, None);
    let mut expected_aux = Vec::new();
    for field in &info.skip_fields {
        expected_aux.extend_from_slice(&field.bytes);
    }
    expected_aux.extend_from_slice(&info.trailing_aux_data);
    assert_eq!(info.aux_data, expected_aux);
}

#[test]
fn inspection_finds_emdf_in_trailing_aux_data() {
    let emdf = build_emdf_block(14, &[0xAA]);
    let mut frame = build_minimal_eac3_frame(64);
    let trailer = frame.len() - 4;
    let aux_start = trailer - emdf.len();
    frame[aux_start..trailer].copy_from_slice(&emdf);
    let aux_len = emdf.len() as u32;
    let trailer_word: u32 = (aux_len << 18) | (1 << 17);
    frame[trailer..].copy_from_slice(&trailer_word.to_be_bytes());

    let info = inspect_access_unit(&frame).expect("access unit should parse");
    assert_eq!(info.trailing_aux_data, emdf);
    assert_eq!(info.emdf_source, EmdfSource::AuxData);
    assert_eq!(info.emdf_blocks.len(), 1);
    assert_eq!(info.emdf_block_count, 1);
    assert_eq!(info.first_emdf_sync_offset, Some(info.emdf_blocks[0].sync_offset));
    assert_eq!(info.joc_payload_count(), 1);
    assert_eq!(info.oamd_payload_count(), 0);
    let payloads = info.payloads();
    assert_eq!(payloads.len(), 1);
    assert_eq!(payloads[0].info.payload_id, 14);
    assert_eq!(payloads[0].bytes, vec![0xAA]);
    assert!(info.summary().ends_with(" payloads=[14/joc:1B]"));
}

fn build_header_frame(frame_type: u32, fscod: u32, numblkscod: u32, bsid: u32) -> Vec<u8> {
    let frame_size = 32usize;
    let mut bits = Vec::new();
    push_bits(&mut bits, 0x0B77, 16);
    push_bits(&mut bits, frame_type, 2);
    push_bits(&mut bits, 0, 3);
    push_bits(&mut bits, ((frame_size / 2) - 1) as u32, 11);
    push_bits(&mut bits, fscod, 2);
    push_bits(&mut bits, numblkscod, 2);
    push_bits(&mut bits, 7, 3);
    push_bits(&mut bits, 1, 1);
    push_bits(&mut bits, bsid, 5);
    push_bits(&mut bits, 0, 5);
    push_bits(&mut bits, 0, 1);
    push_bits(&mut bits, 0, 1);
    push_bits(&mut bits, 0, 1);
    push_bits(&mut bits, 0, 1);
    bits_to_bytes(&bits, frame_size)
}

#[test]
fn header_errors_name_the_offending_field() {
    assert_eq!(
        inspect_access_unit(&build_header_frame(0, 0, 3, 8)).expect_err("AC-3 bsid"),
        ParseError::NotEac3
    );
    assert_eq!(
        inspect_access_unit(&build_header_frame(0, 0, 3, 17)).expect_err("bsid too high"),
        ParseError::InvalidHeader("bsid")
    );
    assert_eq!(
        inspect_access_unit(&build_header_frame(3, 0, 3, 16)).expect_err("reserved frame type"),
        ParseError::InvalidHeader("frame-type")
    );
    assert_eq!(
        inspect_access_unit(&build_header_frame(0, 3, 3, 16)).expect_err("reserved rate code"),
        ParseError::InvalidHeader("sample-rate")
    );
    let mut frame = build_header_frame(0, 0, 3, 16);
    frame[0] = 0x0C;
    assert_eq!(inspect_access_unit(&frame).expect_err("bad sync"), ParseError::BadSyncword);
}

#[test]
fn sample_rate_codes_give_the_rate() {
    let info = inspect_access_unit(&build_header_frame(0, 1, 3, 16)).expect("44.1 kHz frame");
    assert_eq!(info.sample_rate, 44_100);
    assert_eq!(info.num_blocks, 6);
    let info = inspect_access_unit(&build_header_frame(0, 3, 1, 16)).expect("reduced-rate frame");
    assert_eq!(info.sample_rate, 22_050);
    assert_eq!(info.num_blocks, 6);
    let info = inspect_access_unit(&build_header_frame(1, 2, 3, 16)).expect("dependent frame");
    assert_eq!(info.sample_rate, 32_000);
    assert_eq!(info.frame_type, FrameType::Dependent);
}
