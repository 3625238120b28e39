use starmine_ad::bitreader::BitReader;

#[test]
fn bits_are_read_most_significant_first() {
    let data = [0xA5u8, 0x0F];
    let mut reader = BitReader::new(&data);
    assert_eq!(reader.read_bits(4), Some(0xA));
    assert_eq!(reader.read_bits(8), Some(0x50));
    assert_eq!(reader.show_bits(4), Some(0xF));
    assert_eq!(reader.position(), 12);
    assert_eq!(reader.read_bit(), Some(true));
    assert_eq!(reader.skip_bits(3), Some(()));
    assert_eq!(reader.position(), 16);
    assert_eq!(reader.read_bits(1), None);
    assert_eq!(reader.skip_bits(1), None);
    assert_eq!(reader.position(), 16);
    assert_eq!(reader.read_bits(0), Some(0));
}

#[test]
fn reads_stop_at_the_limit() {
    let data = [0xFFu8, 0xFF, 0xFF];
    let mut reader = BitReader::new(&data);
    assert_eq!(reader.limit_bits(), 24);
    reader.set_limit_bits(10);
    assert_eq!(reader.limit_bits(), 10);
    assert_eq!(reader.read_bits(11), None);
    assert_eq!(reader.read_bits(10), Some(0x3FF));
    reader.set_limit_bits(100);
    assert_eq!(reader.limit_bits(), 24);
    assert_eq!(reader.read_bits(32), None);
}

#[test]
fn byte_reads_may_start_mid_byte() {
    let data = [0xA5u8, 0x0F, 0x80];
    let mut reader = BitReader::with_offset(&data, 4);
    assert_eq!(reader.read_bytes(2), Some(vec![0x50, 0xF8]));
    assert_eq!(reader.position(), 20);
    assert_eq!(reader.read_bytes(1), None);
}

#[test]
fn variable_bits_extend_while_the_flag_is_set() {
    let data = [0b1110_1000u8];
    let mut reader = BitReader::new(&data);
    assert_eq!(reader.read_variable_bits(2), Some(17));
    assert_eq!(reader.position(), 6);

    let data = [0b0100_0000u8];
    let mut reader = BitReader::new(&data);
    assert_eq!(reader.read_variable_bits(2), Some(1));
    assert_eq!(reader.position(), 3);
    let mut reader = BitReader::new(&data);
    assert_eq!(reader.skip_variable_bits(2), Some(()));
    assert_eq!(reader.position(), 3);

    let data = [0b1111_1111u8];
    let mut reader = BitReader::new(&data);
    assert_eq!(reader.read_variable_bits(2), None);
}
