//! Integer primitives of TrueHD lossless decoding: the prefix dot products that the prediction
//! filters and the lossless matrices compute, the shift of a filter history, the length of a
//! Huffman-coded sample, and the per-substream decoder state with its initial value.

use vstd::prelude::*;

verus! {

/// Sum of `lhs[i] * rhs[i]` over `i < len`.
pub open spec fn spec_dot(lhs: Seq<i32>, rhs: Seq<i32>, len: int) -> int
    decreases len,
{
    if len <= 0 {
        0
    } else {
        spec_dot(lhs, rhs, len - 1) + lhs[len - 1] * rhs[len - 1]
    }
}

/// Every partial sum of the first `len` products of `lhs` and `rhs` fits in an `i64`.
pub open spec fn dot_fits(lhs: Seq<i32>, rhs: Seq<i32>, len: int) -> bool {
    forall|k: int| 0 <= k <= len ==> i64::MIN <= #[trigger] spec_dot(lhs, rhs, k) <= i64::MAX
}

/// The product of two `i32` values fits in an `i64` with room to spare.
proof fn lemma_i32_product_bound(a: i32, b: i32)
    ensures
        -0x4000_0000_0000_0000 <= a * b <= 0x4000_0000_0000_0000,
{
    assert(-0x4000_0000_0000_0000 <= a * b <= 0x4000_0000_0000_0000) by (nonlinear_arith)
        requires
            -0x8000_0000 <= a <= 0x7fff_ffff,
            -0x8000_0000 <= b <= 0x7fff_ffff,
    ;
}

/// Dot product of the first `len` entries of `lhs` and `rhs`, accumulated in 64 bits.
pub fn dot_product_i32_prefix<const N: usize>(lhs: &[i32; N], rhs: &[i32; N], len: usize) -> (r:
    i64)
    requires
        len <= N,
        dot_fits(lhs@, rhs@, len as int),
    ensures
        r == spec_dot(lhs@, rhs@, len as int),
{
    let mut acc: i64 = 0;
    let mut i: usize = 0;
    while i < len
        invariant
            i <= len <= N,
            lhs@.len() == N,
            rhs@.len() == N,
            dot_fits(lhs@, rhs@, len as int),
            acc == spec_dot(lhs@, rhs@, i as int),
        decreases len - i,
    {
        let l = lhs[i];
        let r = rhs[i];
        proof {
            lemma_i32_product_bound(l, r);
            assert(i64::MIN <= spec_dot(lhs@, rhs@, i + 1) <= i64::MAX);
        }
        acc = acc + (l as i64) * (r as i64);
        i += 1;
    }
    acc
}

/// Two dot products sharing their first operand: `samples` against `coeff_a` and against
/// `coeff_b`, over the first `len` entries, accumulated in 64 bits.
pub fn dual_dot_product_i32_prefix<const N: usize>(
    samples: &[i32; N],
    coeff_a: &[i32; N],
    coeff_b: &[i32; N],
    len: usize,
) -> (r: (i64, i64))
    requires
        len <= N,
        dot_fits(samples@, coeff_a@, len as int),
        dot_fits(samples@, coeff_b@, len as int),
    ensures
        r.0 == spec_dot(samples@, coeff_a@, len as int),
        r.1 == spec_dot(samples@, coeff_b@, len as int),
{
    let mut sum_a: i64 = 0;
    let mut sum_b: i64 = 0;
    let mut i: usize = 0;
    while i < len
        invariant
            i <= len <= N,
            samples@.len() == N,
            coeff_a@.len() == N,
            coeff_b@.len() == N,
            dot_fits(samples@, coeff_a@, len as int),
            dot_fits(samples@, coeff_b@, len as int),
            sum_a == spec_dot(samples@, coeff_a@, i as int),
            sum_b == spec_dot(samples@, coeff_b@, i as int),
        decreases len - i,
    {
        let sample = samples[i];
        let a = coeff_a[i];
        let b = coeff_b[i];
        proof {
            lemma_i32_product_bound(sample, a);
            lemma_i32_product_bound(sample, b);
            assert(i64::MIN <= spec_dot(samples@, coeff_a@, i + 1) <= i64::MAX);
            assert(i64::MIN <= spec_dot(samples@, coeff_b@, i + 1) <= i64::MAX);
        }
        sum_a = sum_a + (sample as i64) * (a as i64);
        sum_b = sum_b + (sample as i64) * (b as i64);
        i += 1;
    }
    (sum_a, sum_b)
}

/// Shifts a filter history by one sample: `sample` becomes the newest entry and the oldest
/// entry drops out.
pub fn push_history_front(history: &mut [i32; 8], sample: i32)
    ensures
        final(history)@ == seq![sample] + old(history)@.subrange(0, 7),
{
    history[7] = history[6];
    history[6] = history[5];
    history[5] = history[4];
    history[4] = history[3];
    history[3] = history[2];
    history[2] = history[1];
    history[1] = history[0];
    history[0] = sample;
    assert(history@ =~= seq![sample] + old(history)@.subrange(0, 7));
}

/// Huffman codes that the codebook of type `huff_type` (1, 2 or 3) can produce.
pub open spec fn valid_huffman_code(huff_type: usize, huff_code: i32) -> bool {
    match huff_type {
        1 => -7 <= huff_code <= 10,
        2 => -7 <= huff_code <= 8,
        3 => -7 <= huff_code <= 7,
        _ => false,
    }
}

/// Length in bits of the Huffman code word for `huff_code` in codebook `huff_type`: negative
/// codes take `2 - code` bits in every codebook; the non-negative codes take three bits up to
/// four and one bit more per step above (type 1), two bits for zero and one and one bit more
/// per step above (type 2), or one bit for zero and `code + 2` bits above (type 3).
pub open spec fn spec_huffman_sample_bits(huff_type: usize, huff_code: i32) -> int {
    if huff_code < 0 {
        2 - huff_code
    } else if huff_type == 1 {
        if huff_code <= 4 {
            3
        } else {
            huff_code - 1
        }
    } else if huff_type == 2 {
        if huff_code <= 1 {
            2
        } else {
            huff_code + 1
        }
    } else if huff_code == 0 {
        1
    } else {
        huff_code + 2
    }
}

/// Length in bits of the code word of one Huffman-coded sample.
pub fn huffman_sample_bits(huff_type: usize, huff_code: i32) -> (r: u64)
    requires
        valid_huffman_code(huff_type, huff_code),
    ensures
        r == spec_huffman_sample_bits(huff_type, huff_code),
{
    match huff_type {
        1 => match huff_code {
            0..=4 => 3,
            -1 => 3,
            5 => 4,
            -2 => 4,
            6 => 5,
            -3 => 5,
            7 => 6,
            -4 => 6,
            8 => 7,
            -5 => 7,
            9 => 8,
            -6 => 8,
            10 => 9,
            _ => 9,
        },
        2 => match huff_code {
            0 | 1 => 2,
            2 => 3,
            -1 => 3,
            3 => 4,
            -2 => 4,
            4 => 5,
            -3 => 5,
            5 => 6,
            -4 => 6,
            6 => 7,
            -5 => 7,
            7 => 8,
            -6 => 8,
            8 => 9,
            _ => 9,
        },
        _ => match huff_code {
            0 => 1,
            1 => 3,
            -1 => 3,
            2 => 4,
            -2 => 4,
            3 => 5,
            -3 => 5,
            4 => 6,
            -4 => 6,
            5 => 7,
            -5 => 7,
            6 => 8,
            -6 => 8,
            7 => 9,
            _ => 9,
        },
    }
}

/// Decoding state of one TrueHD substream: channel range and assignment, matrixing, output
/// shifts and quantiser steps, prediction filters with their histories, the dither generator
/// and the lossless check words.
#[derive(Debug, Clone, Copy)]
pub struct DecoderSubstreamState {
    pub restart_sync_word: u16,
    pub output_timing: u16,
    pub min_chan: usize,
    pub max_chan: usize,
    pub max_matrix_chan: usize,
    pub dither_shift: u32,
    pub dither_seed: u32,
    pub lossless_check_i32: i32,
    pub lossless_check_i32_prev_au: i32,
    pub lossless_check_i32_accum: i32,
    pub ch_assign: [usize; 16],
    pub block_size: usize,
    pub primitive_matrices: usize,
    pub matrix_ch: [u8; 16],
    pub frac_bits: [u8; 16],
    pub cf_shift_code: [i8; 16],
    pub dither_scale: [u8; 16],
    pub delta_precision: [u8; 16],
    pub delta_cf: [[i32; 16]; 16],
    pub m_coeff: [[i32; 16]; 16],
    pub output_shift: [i8; 16],
    pub quantiser_step_size: [u32; 16],
    pub order: [[usize; 16]; 2],
    pub coeff_q: [[i32; 16]; 2],
    pub coeff: [[[i32; 8]; 16]; 2],
    pub coeff_state: [[[i32; 8]; 16]; 2],
    pub dither_table: [i32; 256],
    pub decoded_sample_len: usize,
}

/// Every entry of a table of sixteen rows is zero.
pub open spec fn rows_zero<const M: usize>(t: [[i32; M]; 16]) -> bool {
    forall|i: int, j: int| 0 <= i < 16 && 0 <= j < M ==> #[trigger] t@[i]@[j] == 0
}

/// Every filter coefficient (or history entry) of both filters is zero.
pub open spec fn filters_zero(t: [[[i32; 8]; 16]; 2]) -> bool {
    forall|f: int, c: int, k: int|
        0 <= f < 2 && 0 <= c < 16 && 0 <= k < 8 ==> #[trigger] t@[f]@[c]@[k] == 0
}

impl DecoderSubstreamState {
    /// The state before any restart header: everything zero, blocks of eight samples.
    pub open spec fn is_initial(&self) -> bool {
        &&& self.restart_sync_word == 0
        &&& self.output_timing == 0
        &&& self.min_chan == 0
        &&& self.max_chan == 0
        &&& self.max_matrix_chan == 0
        &&& self.dither_shift == 0
        &&& self.dither_seed == 0
        &&& self.lossless_check_i32 == 0
        &&& self.lossless_check_i32_prev_au == 0
        &&& self.lossless_check_i32_accum == 0
        &&& (forall|i: int| 0 <= i < 16 ==> #[trigger] self.ch_assign@[i] == 0)
        &&& self.block_size == 8
        &&& self.primitive_matrices == 0
        &&& (forall|i: int| 0 <= i < 16 ==> #[trigger] self.matrix_ch@[i] == 0)
        &&& (forall|i: int| 0 <= i < 16 ==> #[trigger] self.frac_bits@[i] == 0)
        &&& (forall|i: int| 0 <= i < 16 ==> #[trigger] self.cf_shift_code@[i] == 0)
        &&& (forall|i: int| 0 <= i < 16 ==> #[trigger] self.dither_scale@[i] == 0)
        &&& (forall|i: int| 0 <= i < 16 ==> #[trigger] self.delta_precision@[i] == 0)
        &&& rows_zero(self.delta_cf)
        &&& rows_zero(self.m_coeff)
        &&& (forall|i: int| 0 <= i < 16 ==> #[trigger] self.output_shift@[i] == 0)
        &&& (forall|i: int| 0 <= i < 16 ==> #[trigger] self.quantiser_step_size@[i] == 0)
        &&& (forall|f: int, c: int| 0 <= f < 2 && 0 <= c < 16 ==> #[trigger] self.order@[f]@[c] == 0)
        &&& (forall|f: int, c: int| 0 <= f < 2 && 0 <= c < 16 ==> #[trigger] self.coeff_q@[f]@[c] == 0)
        &&& filters_zero(self.coeff)
        &&& filters_zero(self.coeff_state)
        &&& (forall|i: int| 0 <= i < 256 ==> #[trigger] self.dither_table@[i] == 0)
        &&& self.decoded_sample_len == 0
    }
}

impl Default for DecoderSubstreamState {
    fn default() -> (s: Self)
        ensures
            s.is_initial(),
    {
        let s = DecoderSubstreamState {
            restart_sync_word: 0,
            output_timing: 0,
            min_chan: 0,
            max_chan: 0,
            max_matrix_chan: 0,
            dither_shift: 0,
            dither_seed: 0,
            lossless_check_i32: 0,
            lossless_check_i32_prev_au: 0,
            lossless_check_i32_accum: 0,
            ch_assign: [0; 16],
            block_size: 8,
            primitive_matrices: 0,
            matrix_ch: [0; 16],
            frac_bits: [0; 16],
            cf_shift_code: [0; 16],
            dither_scale: [0; 16],
            delta_precision: [0; 16],
            delta_cf: [[0; 16]; 16],
            m_coeff: [[0; 16]; 16],
            output_shift: [0; 16],
            quantiser_step_size: [0; 16],
            order: [[0; 16]; 2],
            coeff_q: [[0; 16]; 2],
            coeff: [[[0; 8]; 16]; 2],
            coeff_state: [[[0; 8]; 16]; 2],
            dither_table: [0; 256],
            decoded_sample_len: 0,
        };
        s
    }
}

} // verus!
