use starmine_ad::raw_stream::{RawEac3FrameIter, RawTrueHdAccessUnitIter, RawTrueHdError};
use starmine_ad::syncframe::ParseError;

fn push_bits(bits: &mut Vec<bool>, value: u32, width: usize) {
    for bit in (0..width).rev() {
        bits.push(((value >> bit) & 1) != 0);
    }
}

fn build_minimal_eac3_frame(frame_size: usize) -> Vec<u8> {
    let mut bits = Vec::new();
    let frmsiz = ((frame_size / 2) - 1) as u32;
    push_bits(&mut bits, 0x0B77, 16);
    push_bits(&mut bits, 0, 2);
    push_bits(&mut bits, 0, 3);
    push_bits(&mut bits, frmsiz, 11);
    push_bits(&mut bits, 0, 2);
    push_bits(&mut bits, 3, 2);
    push_bits(&mut bits, 7, 3);
    push_bits(&mut bits, 1, 1);
    push_bits(&mut bits, 16, 5);
    push_bits(&mut bits, 0, 5);
    push_bits(&mut bits, 0, 1);
    push_bits(&mut bits, 0, 1);
    push_bits(&mut bits, 0, 1);
    push_bits(&mut bits, 0, 1);
    let mut bytes = vec![0u8; frame_size];
    for (index, bit) in bits.iter().copied().enumerate() {
        if bit {
            bytes[index >> 3] |= 1 << (7 - (index & 7));
        }
    }
    bytes
}

#[test]
fn eac3_walk_tiles_consecutive_frames() {
    let mut stream = build_minimal_eac3_frame(32);
    stream.extend(build_minimal_eac3_frame(32));
    let mut walk = RawEac3FrameIter::new(&stream);
    let first = walk.next().expect("first frame").expect("first frame parses");
    assert_eq!(first.offset, 0);
    assert_eq!(first.bytes, &stream[..32]);
    let second = walk.next().expect("second frame").expect("second frame parses");
    assert_eq!(second.offset, 32);
    assert_eq!(second.bytes, &stream[32..]);
    assert!(walk.next().is_none());
    assert!(walk.next().is_none());
}

#[test]
fn eac3_walk_stops_after_truncated_frame() {
    let mut stream = build_minimal_eac3_frame(32);
    stream.extend(&build_minimal_eac3_frame(32)[..31]);
    let mut walk = RawEac3FrameIter::new(&stream);
    assert_eq!(walk.next().expect("first frame").expect("parses").offset, 0);
    match walk.next() {
        Some(Err(ParseError::TruncatedFrame { expected, available })) => {
            assert_eq!(expected, 32);
            assert_eq!(available, 31);
        }
        _ => panic!("expected a truncated frame"),
    }
    assert!(walk.next().is_none());
}

#[test]
fn eac3_walk_reports_bad_syncword_once() {
    let stream = vec![0u8; 40];
    let mut walk = RawEac3FrameIter::new(&stream);
    match walk.next() {
        Some(Err(err)) => assert_eq!(err, ParseError::BadSyncword),
        _ => panic!("expected an error"),
    }
    assert!(walk.next().is_none());
}

fn truehd_unit(length: usize, major_sync: bool) -> Vec<u8> {
    let words = length / 2;
    let mut unit = vec![0u8; length];
    unit[0] = ((words >> 8) & 0x0F) as u8;
    unit[1] = (words & 0xFF) as u8;
    if major_sync {
        unit[4..8].copy_from_slice(&[0xF8, 0x72, 0x6F, 0xBA]);
    }
    unit
}

#[test]
fn truehd_walk_syncs_then_follows_lengths() {
    let mut stream = vec![0x55u8, 0x66, 0x77];
    stream.extend(truehd_unit(16, true));
    stream.extend(truehd_unit(8, false));
    let mut walk = RawTrueHdAccessUnitIter::new(&stream);
    assert_eq!(walk.find_initial_access_unit_start(), Some(3));
    let first = walk.next().expect("first unit").expect("first unit parses");
    assert_eq!(first.offset, 3);
    assert_eq!(first.bytes.len(), 16);
    let second = walk.next().expect("second unit").expect("second unit parses");
    assert_eq!(second.offset, 19);
    assert_eq!(second.bytes, &stream[19..27]);
    assert!(walk.next().is_none());
}

#[test]
fn truehd_walk_without_major_sync_fails_once() {
    let stream = vec![0u8; 64];
    let mut walk = RawTrueHdAccessUnitIter::new(&stream);
    match walk.next() {
        Some(Err(err)) => assert_eq!(err, RawTrueHdError::NoMajorSync { offset: 0 }),
        _ => panic!("expected a missing major sync"),
    }
    assert!(walk.next().is_none());
}

#[test]
fn truehd_walk_rejects_short_length() {
    let mut stream = truehd_unit(16, true);
    stream.extend([0x00u8, 0x02, 0, 0, 0, 0]);
    let mut walk = RawTrueHdAccessUnitIter::new(&stream);
    assert!(walk.next().expect("first unit").is_ok());
    match walk.next() {
        Some(Err(err)) => {
            assert_eq!(err, RawTrueHdError::InvalidAccessUnitLength { offset: 16, length: 4 })
        }
        _ => panic!("expected an invalid length"),
    }
    assert!(walk.next().is_none());
}

#[test]
fn truehd_walk_reports_truncated_unit() {
    let mut stream = truehd_unit(16, true);
    stream.truncate(12);
    let mut walk = RawTrueHdAccessUnitIter::new(&stream);
    match walk.next() {
        Some(Err(err)) => assert_eq!(
            err,
            RawTrueHdError::TruncatedAccessUnit { offset: 0, expected: 16, available: 12 }
        ),
        _ => panic!("expected a truncated unit"),
    }
    assert!(walk.next().is_none());
}

#[test]
fn split_error_texts_name_their_values() {
    assert_eq!(RawTrueHdError::NoMajorSync { offset: 7 }.to_string(), "no-major-sync offset=7");
    assert_eq!(
        RawTrueHdError::InvalidAccessUnitLength { offset: 16, length: 4 }.to_string(),
        "invalid-access-unit-length offset=16 length=4"
    );
    assert_eq!(
        RawTrueHdError::TruncatedAccessUnit { offset: 0, expected: 16, available: 12 }.to_string(),
        "truncated-access-unit offset=0 expected=16 available=12"
    );
    assert_eq!(ParseError::ShortPacket.to_string(), "short-packet");
    assert_eq!(ParseError::InvalidHeader("bsid").to_string(), "invalid-header:bsid");
    assert_eq!(
        ParseError::UnsupportedFeature("bit-allocation").to_string(),
        "unsupported-feature:bit-allocation"
    );
    assert_eq!(
        ParseError::TruncatedFrame { expected: 32, available: 31 }.to_string(),
        "truncated-frame expected=32 available=31"
    );
    assert_eq!(
        ParseError::TrailingData { expected: 32, provided: 40 }.to_string(),
        "trailing-data expected=32 provided=40"
    );
}
