use starmine_ad::lossless::{
    dot_product_i32_prefix, dual_dot_product_i32_prefix, huffman_sample_bits, push_history_front,
    DecoderSubstreamState,
};

#[test]
fn dot_product_sums_the_prefix() {
    let lhs = [1, -2, 3, 4];
    let rhs = [5, 6, -7, 8];
    assert_eq!(dot_product_i32_prefix(&lhs, &rhs, 0), 0);
    assert_eq!(dot_product_i32_prefix(&lhs, &rhs, 2), -7);
    assert_eq!(dot_product_i32_prefix(&lhs, &rhs, 4), 4);
    let big = [i32::MAX, i32::MIN];
    assert_eq!(
        dot_product_i32_prefix(&big, &big, 2),
        (i32::MAX as i64) * (i32::MAX as i64) + (i32::MIN as i64) * (i32::MIN as i64)
    );
}

#[test]
fn dual_dot_product_shares_samples() {
    let samples = [2, 3, 4];
    let a = [1, 1, 1];
    let b = [10, -10, 100];
    assert_eq!(dual_dot_product_i32_prefix(&samples, &a, &b, 3), (9, 390));
    assert_eq!(dual_dot_product_i32_prefix(&samples, &a, &b, 1), (2, 20));
}

#[test]
fn history_shift_drops_the_oldest_sample() {
    let mut history = [1, 2, 3, 4, 5, 6, 7, 8];
    push_history_front(&mut history, 9);
    assert_eq!(history, [9, 1, 2, 3, 4, 5, 6, 7]);
}

#[test]
fn huffman_code_lengths_follow_the_codebooks() {
    let cases = [
        (1, 0, 3),
        (1, 4, 3),
        (1, 5, 4),
        (1, 10, 9),
        (1, -1, 3),
        (1, -7, 9),
        (2, 0, 2),
        (2, 1, 2),
        (2, 2, 3),
        (2, 8, 9),
        (2, -4, 6),
        (3, 0, 1),
        (3, 1, 3),
        (3, 7, 9),
        (3, -6, 8),
    ];
    for (huff_type, code, bits) in cases {
        assert_eq!(huffman_sample_bits(huff_type, code), bits, "type {huff_type} code {code}");
    }
}

#[test]
fn substream_state_starts_empty_with_eight_sample_blocks() {
    let state = DecoderSubstreamState::default();
    assert_eq!(state.block_size, 8);
    assert_eq!(state.restart_sync_word, 0);
    assert_eq!(state.decoded_sample_len, 0);
    assert!(state.ch_assign.iter().all(|&c| c == 0));
    assert!(state.m_coeff.iter().all(|row| row.iter().all(|&c| c == 0)));
    assert!(state.coeff_state.iter().all(|f| f.iter().all(|h| h.iter().all(|&c| c == 0))));
    assert!(state.dither_table.iter().all(|&d| d == 0));
}
