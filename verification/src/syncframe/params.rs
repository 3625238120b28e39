//! Exponent, bit-allocation, SNR-offset, gain and delta bit-allocation fields of an audio block.

use crate::bitreader::{BitCursor, BitReader};
use crate::syncframe::block::{
    spec_default_bit_allocation_params, spec_delta_mode, BitAllocationParams, BlockModel,
    BlockSyntaxState, DeltaBitAllocationMode, DeltaSegment,
};
use crate::syncframe::types::{
    rd, rflag, rskip, sflag, sread, sskip, AudioFrameInfo, AudioFrameModel, ExpStrategy,
    ParseError,
};
use vstd::arithmetic::power2::lemma2_to64;
use vstd::prelude::*;

verus! {

/// Exponent groups that carry `count` exponents under `strategy`.
pub open spec fn spec_grouped_exponent_count(count: int, strategy: ExpStrategy) -> int {
    match strategy {
        ExpStrategy::Reuse => 0,
        ExpStrategy::D15 => (count - 1) / 3,
        ExpStrategy::D25 => (count + 2) / 6,
        ExpStrategy::D45 => (count + 8) / 12,
    }
}

/// Exponent groups that carry `count` exponents under `strategy`.
pub fn grouped_exponent_count(count: usize, strategy: ExpStrategy) -> (r: usize)
    requires
        1 <= count <= 1024,
    ensures
        r as int == spec_grouped_exponent_count(count as int, strategy),
        r <= 341,
{
    match strategy {
        ExpStrategy::Reuse => 0,
        ExpStrategy::D15 => (count - 1) / 3,
        ExpStrategy::D25 => (count + 2) / 6,
        ExpStrategy::D45 => (count + 8) / 12,
    }
}

/// Bandwidth codes read for channels `ch..` whose exponents are new and which are neither
/// coupled nor in spectral extension.
pub open spec fn spec_read_bandwidths(
    c: BitCursor,
    chbwcod: Seq<u8>,
    strategies: Seq<ExpStrategy>,
    chincpl: Seq<bool>,
    chinspx: Seq<bool>,
    ch: int,
) -> Result<(Seq<u8>, BitCursor), ParseError>
    decreases chbwcod.len() - ch,
{
    if ch < 0 || ch >= chbwcod.len() {
        Ok((chbwcod, c))
    } else if strategies[ch] != ExpStrategy::Reuse && !chincpl[ch] && !chinspx[ch] {
        match sread(c, 6) {
            Err(e) => Err(e),
            Ok((v, c1)) => spec_read_bandwidths(
                c1,
                chbwcod.update(ch, v as u8),
                strategies,
                chincpl,
                chinspx,
                ch + 1,
            ),
        }
    } else {
        spec_read_bandwidths(c, chbwcod, strategies, chincpl, chinspx, ch + 1)
    }
}

/// First mantissa past the end of channel `ch`.
pub open spec fn spec_channel_endmant(s: BlockModel, coupling_in_use: bool, ch: int) -> Result<
    usize,
    ParseError,
> {
    if s.ecplinu {
        Err(ParseError::UnsupportedFeature("ecplinu"))
    } else if s.spx_in_use && !coupling_in_use {
        Ok((s.spx_begin_subbnd * 12 + 25) as usize)
    } else if s.chincpl[ch] {
        Ok((37 + 12 * s.cplbegf) as usize)
    } else if s.chbwcod[ch] > 60 {
        Err(ParseError::InvalidHeader("chbwcod"))
    } else {
        Ok(((s.chbwcod[ch] + 12) * 3 + 37) as usize)
    }
}

/// Exponents of channels `ch..`: each channel's end mantissa, appended to `ends`, and the
/// exponent fields (absolute exponent, groups of seven bits, gain range) of channels whose
/// exponents are new.
pub open spec fn spec_channel_exponents(
    c: BitCursor,
    s: BlockModel,
    strategies: Seq<ExpStrategy>,
    coupling_in_use: bool,
    ch: int,
    ends: Seq<usize>,
) -> Result<(Seq<usize>, BitCursor), ParseError>
    decreases s.chbwcod.len() - ch,
{
    if ch < 0 || ch >= s.chbwcod.len() {
        Ok((ends, c))
    } else {
        match spec_channel_endmant(s, coupling_in_use, ch) {
            Err(e) => Err(e),
            Ok(end) => {
                let groups = spec_grouped_exponent_count(end as int, strategies[ch]);
                let c1: Result<BitCursor, ParseError> = if strategies[ch] != ExpStrategy::Reuse {
                    sskip(c, 4 + groups * 7 + 2)
                } else {
                    Ok(c)
                };
                match c1 {
                    Err(e) => Err(e),
                    Ok(c1) => spec_channel_exponents(
                        c1,
                        s,
                        strategies,
                        coupling_in_use,
                        ch + 1,
                        ends.push(end),
                    ),
                }
            },
        }
    }
}

/// Coupling-channel exponents of block `block`, when coupling is in use.
pub open spec fn spec_cpl_exponents(c: BitCursor, s: BlockModel, block: int, af: AudioFrameModel) -> Result<
    BitCursor,
    ParseError,
> {
    if !af.coupling_in_use[block] {
        Ok(c)
    } else if s.ecplinu {
        Err(ParseError::UnsupportedFeature("ecplinu"))
    } else {
        match af.coupling_exponent_strategy[block] {
            None => Ok(c),
            Some(strategy) => {
                let start = 37 + 12 * s.cplbegf;
                let end = 37 + 12 * (s.cplendf + 3);
                let span = if start < end {
                    end - start
                } else {
                    0
                };
                sskip(c, 4 + spec_grouped_exponent_count(span, strategy) * 7)
            },
        }
    }
}

/// `s` with the bandwidth codes `chbwcod`.
pub open spec fn spec_with_bandwidths(s: BlockModel, chbwcod: Seq<u8>) -> BlockModel {
    BlockModel { chbwcod: chbwcod, ..s }
}

/// The LFE channel sends new exponents in block `block`.
pub open spec fn spec_lfe_exponents(af: AudioFrameModel, block: int, lfe_on: bool, state_lfe: bool) -> bool {
    lfe_on && 0 <= block < af.lfe_exponent_strategy.len() && af.lfe_exponent_strategy[block]
        && state_lfe
}

/// Exponent syntax of audio block `block`: bandwidth codes, coupling exponents, channel
/// exponents and LFE exponents. Returns the state, the end mantissa of each channel and the
/// cursor.
#[verifier::opaque]
pub open spec fn spec_read_exponents(
    c: BitCursor,
    s: BlockModel,
    block: int,
    lfe_on: bool,
    af: AudioFrameModel,
) -> Result<(BlockModel, Seq<usize>, BitCursor), ParseError> {
    match spec_read_bandwidths(
        c,
        s.chbwcod,
        af.channel_exponent_strategy[block],
        s.chincpl,
        s.chinspx,
        0,
    ) {
        Err(e) => Err(e),
        Ok((chbwcod, c1)) => spec_exponents_after_bandwidths(
            c1,
            spec_with_bandwidths(s, chbwcod),
            block,
            lfe_on,
            af,
        ),
    }
}

/// Exponent syntax of block `block` after the bandwidth codes.
pub open spec fn spec_exponents_after_bandwidths(
    c1: BitCursor,
    s1: BlockModel,
    block: int,
    lfe_on: bool,
    af: AudioFrameModel,
) -> Result<(BlockModel, Seq<usize>, BitCursor), ParseError> {
    match spec_cpl_exponents(c1, s1, block, af) {
        Err(e) => Err(e),
        Ok(c2) => match spec_channel_exponents(
            c2,
            s1,
            af.channel_exponent_strategy[block],
            af.coupling_in_use[block],
            0,
            Seq::empty(),
        ) {
            Err(e) => Err(e),
            Ok((ends, c3)) => if spec_lfe_exponents(af, block, lfe_on, s1.lfe_on) {
                match sskip(c3, 18) {
                    Err(e) => Err(e),
                    Ok(c4) => Ok((s1, ends, c4)),
                }
            } else {
                Ok((s1, ends, c3))
            },
        },
    }
}

/// The audio-frame tables hold an entry for block `block` and, there, a strategy for each of
/// the `n` channels.
pub open spec fn frame_covers_block(af: AudioFrameModel, block: int, n: nat) -> bool {
    &&& 0 <= block
    &&& block < af.coupling_strategy_updates.len()
    &&& block < af.coupling_in_use.len()
    &&& block < af.coupling_exponent_strategy.len()
    &&& block < af.channel_exponent_strategy.len()
    &&& af.channel_exponent_strategy[block].len() >= n
}

impl BlockSyntaxState {
    /// Reads the bandwidth codes of block `block`.
    fn read_bandwidths(
        &mut self,
        reader: &mut BitReader,
        block: usize,
        n: usize,
        audio_frame: &AudioFrameInfo,
    ) -> (r: Result<(), ParseError>)
        requires
            old(reader).wf(),
            old(self)@.wf(n as nat),
            frame_covers_block(audio_frame@, block as int, n as nat),
        ensures
            final(reader).wf(),
            match spec_read_bandwidths(
                old(reader)@,
                old(self)@.chbwcod,
                audio_frame@.channel_exponent_strategy[block as int],
                old(self)@.chincpl,
                old(self)@.chinspx,
                0,
            ) {
                Ok((v, c)) => r is Ok && final(self)@ == (BlockModel { chbwcod: v, ..old(self)@ })
                    && final(reader)@ == c && v.len() == n,
                Err(e) => r == Err::<(), ParseError>(e),
            },
    {
        let ghost s0 = self@;
        let ghost strategies = audio_frame@.channel_exponent_strategy[block as int];
        proof {
            lemma2_to64();
        }
        let mut ch: usize = 0;
        while ch < n
            invariant
                reader.wf(),
                s0 == old(self)@,
                s0.wf(n as nat),
                frame_covers_block(audio_frame@, block as int, n as nat),
                strategies == audio_frame@.channel_exponent_strategy[block as int],
                ch <= n,
                self@ == (BlockModel { chbwcod: self@.chbwcod, ..s0 }),
                self@.chbwcod.len() == n,
                spec_read_bandwidths(old(reader)@, s0.chbwcod, strategies, s0.chincpl, s0.chinspx, 0)
                    == spec_read_bandwidths(
                    reader@,
                    self@.chbwcod,
                    strategies,
                    s0.chincpl,
                    s0.chinspx,
                    ch as int,
                ),
            decreases n - ch,
        {
            assert(audio_frame.channel_exponent_strategy[block as int]@ == strategies);
            let strategy = audio_frame.channel_exponent_strategy[block][ch];
            if strategy != ExpStrategy::Reuse && !self.chincpl[ch] && !self.chinspx[ch] {
                proof {
                    lemma2_to64();
                }
                let v = rd(reader, 6)?;
                self.chbwcod.set(ch, v as u8);
            }
            assert(self@.channel_delta_segments =~= s0.channel_delta_segments);
            ch += 1;
        }
        Ok(())
    }

    /// Reads the exponents of every channel; returns each channel's end mantissa.
    fn read_channel_exponents(
        &self,
        reader: &mut BitReader,
        block: usize,
        n: usize,
        audio_frame: &AudioFrameInfo,
    ) -> (r: Result<Vec<usize>, ParseError>)
        requires
            old(reader).wf(),
            self@.wf(n as nat),
            frame_covers_block(audio_frame@, block as int, n as nat),
        ensures
            final(reader).wf(),
            match spec_channel_exponents(
                old(reader)@,
                self@,
                audio_frame@.channel_exponent_strategy[block as int],
                audio_frame@.coupling_in_use[block as int],
                0,
                Seq::empty(),
            ) {
                Ok((ends, c)) => r matches Ok(v) && v@ == ends && final(reader)@ == c && ends.len()
                    == n,
                Err(e) => r == Err::<Vec<usize>, ParseError>(e),
            },
    {
        let ghost strategies = audio_frame@.channel_exponent_strategy[block as int];
        let coupling_in_use = audio_frame.coupling_in_use[block];
        let mut ends: Vec<usize> = Vec::new();
        let mut ch: usize = 0;
        while ch < n
            invariant
                reader.wf(),
                self@.wf(n as nat),
                frame_covers_block(audio_frame@, block as int, n as nat),
                strategies == audio_frame@.channel_exponent_strategy[block as int],
                coupling_in_use == audio_frame@.coupling_in_use[block as int],
                ch <= n,
                ends@.len() == ch,
                spec_channel_exponents(
                    old(reader)@,
                    self@,
                    strategies,
                    coupling_in_use,
                    0,
                    Seq::empty(),
                ) == spec_channel_exponents(
                    reader@,
                    self@,
                    strategies,
                    coupling_in_use,
                    ch as int,
                    ends@,
                ),
            decreases n - ch,
        {
            let end: usize = if self.ecplinu {
                return Err(ParseError::UnsupportedFeature("ecplinu"));
            } else if self.spx_in_use && !coupling_in_use {
                self.spx_begin_subbnd * 12 + 25
            } else if self.chincpl[ch] {
                37 + 12 * self.cplbegf
            } else {
                if self.chbwcod[ch] > 60 {
                    return Err(ParseError::InvalidHeader("chbwcod"));
                }
                (self.chbwcod[ch] as usize + 12) * 3 + 37
            };
            assert(audio_frame.channel_exponent_strategy[block as int]@ == strategies);
            let strategy = audio_frame.channel_exponent_strategy[block][ch];
            let groups = grouped_exponent_count(end, strategy);
            if strategy != ExpStrategy::Reuse {
                rskip(reader, 4 + groups * 7 + 2)?;
            }
            ends.push(end);
            ch += 1;
        }
        Ok(ends)
    }

    /// Reads the exponent syntax of audio block `block`; returns each channel's end mantissa.
    pub fn read_exponents(
        &mut self,
        reader: &mut BitReader,
        block: usize,
        n: usize,
        lfe_on: bool,
        audio_frame: &AudioFrameInfo,
    ) -> (r: Result<Vec<usize>, ParseError>)
        requires
            old(reader).wf(),
            old(self)@.wf(n as nat),
            frame_covers_block(audio_frame@, block as int, n as nat),
        ensures
            final(reader).wf(),
            match spec_read_exponents(old(reader)@, old(self)@, block as int, lfe_on, audio_frame@) {
                Ok((s, ends, c)) => r matches Ok(v) && v@ == ends && final(self)@ == s
                    && final(reader)@ == c && s.wf(n as nat) && ends.len() == n,
                Err(e) => r == Err::<Vec<usize>, ParseError>(e),
            },
    {
        proof {
            reveal(spec_read_exponents);
        }
        self.read_bandwidths(reader, block, n, audio_frame)?;
        if audio_frame.coupling_in_use[block] {
            if self.ecplinu {
                return Err(ParseError::UnsupportedFeature("ecplinu"));
            }
            match audio_frame.coupling_exponent_strategy[block] {
                Some(strategy) => {
                    let start = 37 + 12 * self.cplbegf;
                    let end = 37 + 12 * (self.cplendf + 3);
                    let groups = grouped_exponent_count(end - start, strategy);
                    rskip(reader, 4 + groups * 7)?;
                },
                None => {},
            }
        }
        let ends = self.read_channel_exponents(reader, block, n, audio_frame)?;
        if lfe_on && block < audio_frame.lfe_exponent_strategy.len()
            && audio_frame.lfe_exponent_strategy[block] && self.lfe_on {
            rskip(reader, 18)?;
        }
        Ok(ends)
    }
}

/// The five transmitted bit-allocation parameter codes.
pub open spec fn spec_read_bap_codes(c: BitCursor) -> Result<(BitAllocationParams, BitCursor), ParseError> {
    match sread(c, 2) {
        Err(e) => Err(e),
        Ok((sdcy, c1)) => match sread(c1, 2) {
            Err(e) => Err(e),
            Ok((fdcy, c2)) => match sread(c2, 2) {
                Err(e) => Err(e),
                Ok((sgain, c3)) => match sread(c3, 2) {
                    Err(e) => Err(e),
                    Ok((dbpb, c4)) => match sread(c4, 3) {
                        Err(e) => Err(e),
                        Ok((floor, c5)) => Ok(
                            (
                                BitAllocationParams {
                                    slow_decay_code: sdcy as u8,
                                    fast_decay_code: fdcy as u8,
                                    slow_gain_code: sgain as u8,
                                    db_per_bit_code: dbpb as u8,
                                    floor_code: floor as u8,
                                },
                                c5,
                            ),
                        ),
                    },
                },
            },
        },
    }
}

/// Bit-allocation parameters of a block: new codes after a set flag when the frame enables
/// them, else the default codes.
pub open spec fn spec_read_bit_allocation_params(
    c: BitCursor,
    s: BlockModel,
    af: AudioFrameModel,
) -> Result<(BlockModel, BitCursor), ParseError> {
    if af.bit_allocation_mode_enabled {
        match sflag(c) {
            Err(e) => Err(e),
            Ok((f, c1)) => if !f {
                Ok((s, c1))
            } else {
                match spec_read_bap_codes(c1) {
                    Err(e) => Err(e),
                    Ok((p, c2)) => Ok((BlockModel { bit_allocation_params: p, ..s }, c2)),
                }
            },
        }
    } else {
        Ok((BlockModel { bit_allocation_params: spec_default_bit_allocation_params(), ..s }, c))
    }
}

/// Four-bit values read into the entries of `v` from index `ch` on.
pub open spec fn spec_read_fsnr(c: BitCursor, v: Seq<i32>, ch: int) -> Result<
    (Seq<i32>, BitCursor),
    ParseError,
>
    decreases v.len() - ch,
{
    if ch < 0 || ch >= v.len() {
        Ok((v, c))
    } else {
        match sread(c, 4) {
            Err(e) => Err(e),
            Ok((x, c1)) => spec_read_fsnr(c1, v.update(ch, x as i32), ch + 1),
        }
    }
}

/// Three-bit gain codes read into the entries of `v` from index `ch` on.
pub open spec fn spec_read_fgain(c: BitCursor, v: Seq<u8>, ch: int) -> Result<
    (Seq<u8>, BitCursor),
    ParseError,
>
    decreases v.len() - ch,
{
    if ch < 0 || ch >= v.len() {
        Ok((v, c))
    } else {
        match sread(c, 3) {
            Err(e) => Err(e),
            Ok((x, c1)) => spec_read_fgain(c1, v.update(ch, x as u8), ch + 1),
        }
    }
}

/// The LFE fine SNR offset after a new value `x`.
pub open spec fn spec_lfe_value(lfe_on: bool, x: i32, old_value: i32) -> i32 {
    if lfe_on {
        x
    } else {
        old_value
    }
}

/// SNR offsets taken from the frame header (strategy 0).
pub open spec fn spec_frame_snr(s: BlockModel, lfe_on: bool, af: AudioFrameModel) -> BlockModel {
    let csnr: i32 = match af.frame_csnr_offset {
        Some(x) => x as i32,
        None => 0,
    };
    let fsnr: i32 = match af.frame_fsnr_offset {
        Some(x) => x as i32,
        None => 0,
    };
    BlockModel {
        csnr_offset: csnr,
        channel_fsnr_offsets: Seq::new(s.channel_fsnr_offsets.len(), |i: int| fsnr),
        lfe_fsnr_offset: spec_lfe_value(lfe_on, fsnr, s.lfe_fsnr_offset),
        ..s
    }
}

/// Fine SNR offsets of a block that sends its offsets: one value for all channels
/// (strategy 1), or a value per channel (strategy 2).
#[verifier::opaque]
pub open spec fn spec_fine_snr(
    c: BitCursor,
    s: BlockModel,
    block: int,
    lfe_on: bool,
    af: AudioFrameModel,
) -> Result<(BlockModel, BitCursor), ParseError> {
    if af.snr_offset_strategy == 1 {
        match sread(c, 4) {
            Err(e) => Err(e),
            Ok((x, c1)) => Ok(
                (
                    BlockModel {
                        channel_fsnr_offsets: Seq::new(
                            s.channel_fsnr_offsets.len(),
                            |i: int| x as i32,
                        ),
                        lfe_fsnr_offset: spec_lfe_value(lfe_on, x as i32, s.lfe_fsnr_offset),
                        ..s
                    },
                    c1,
                ),
            ),
        }
    } else if af.snr_offset_strategy == 2 {
        let c1: Result<BitCursor, ParseError> = if af.coupling_in_use[block] {
            sskip(c, 4)
        } else {
            Ok(c)
        };
        match c1 {
            Err(e) => Err(e),
            Ok(c1) => match spec_read_fsnr(c1, s.channel_fsnr_offsets, 0) {
                Err(e) => Err(e),
                Ok((fsnr, c2)) => {
                    let s2 = BlockModel { channel_fsnr_offsets: fsnr, ..s };
                    if lfe_on {
                        match sread(c2, 4) {
                            Err(e) => Err(e),
                            Ok((x, c3)) => Ok((BlockModel { lfe_fsnr_offset: x as i32, ..s2 }, c3)),
                        }
                    } else {
                        Ok((s2, c2))
                    }
                },
            },
        }
    } else {
        Ok((s, c))
    }
}

/// SNR offsets of audio block `block` under the frame's SNR-offset strategy.
#[verifier::opaque]
pub open spec fn spec_read_snr_offsets(
    c: BitCursor,
    s: BlockModel,
    block: int,
    lfe_on: bool,
    af: AudioFrameModel,
) -> Result<(BlockModel, BitCursor), ParseError> {
    if af.snr_offset_strategy == 0 {
        Ok((spec_frame_snr(s, lfe_on, af), c))
    } else {
        let present: Result<(bool, BitCursor), ParseError> = if block == 0 {
            Ok((true, c))
        } else {
            sflag(c)
        };
        match present {
            Err(e) => Err(e),
            Ok((p, c1)) => if !p {
                Ok((s, c1))
            } else {
                match sread(c1, 6) {
                    Err(e) => Err(e),
                    Ok((csnr, c2)) => spec_fine_snr(
                        c2,
                        BlockModel { csnr_offset: csnr as i32, ..s },
                        block,
                        lfe_on,
                        af,
                    ),
                }
            },
        }
    }
}

/// Fine gain codes of audio block `block`: read after a set flag when the frame enables them,
/// else all 4.
#[verifier::opaque]
pub open spec fn spec_read_frame_gain_codes(
    c: BitCursor,
    s: BlockModel,
    block: int,
    lfe_on: bool,
    af: AudioFrameModel,
) -> Result<(BlockModel, BitCursor), ParseError> {
    let present: Result<(bool, BitCursor), ParseError> = if af.frame_gain_syntax_enabled {
        sflag(c)
    } else {
        Ok((false, c))
    };
    match present {
        Err(e) => Err(e),
        Ok((p, c1)) => if !p {
            Ok(
                (
                    BlockModel {
                        channel_fgain_codes: Seq::new(s.channel_fgain_codes.len(), |i: int| 4u8),
                        lfe_fgain_code: if lfe_on {
                            4u8
                        } else {
                            s.lfe_fgain_code
                        },
                        ..s
                    },
                    c1,
                ),
            )
        } else {
            let c2: Result<BitCursor, ParseError> = if af.coupling_in_use[block] {
                sskip(c1, 3)
            } else {
                Ok(c1)
            };
            match c2 {
                Err(e) => Err(e),
                Ok(c2) => match spec_read_fgain(c2, s.channel_fgain_codes, 0) {
                    Err(e) => Err(e),
                    Ok((gains, c3)) => {
                        let s1 = BlockModel { channel_fgain_codes: gains, ..s };
                        if lfe_on {
                            match sread(c3, 3) {
                                Err(e) => Err(e),
                                Ok((x, c4)) => Ok((BlockModel { lfe_fgain_code: x as u8, ..s1 }, c4)),
                            }
                        } else {
                            Ok((s1, c3))
                        }
                    },
                },
            }
        },
    }
}

/// Fills every entry of `v` with `x`.
fn fill_i32(v: &mut Vec<i32>, x: i32)
    ensures
        final(v)@ == Seq::new(old(v)@.len(), |i: int| x),
{
    let ghost n = v@.len();
    let mut k: usize = 0;
    while k < v.len()
        invariant
            k <= v@.len(),
            v@.len() == n,
            forall|i: int| 0 <= i < k ==> v@[i] == x,
        decreases v@.len() - k,
    {
        v.set(k, x);
        k += 1;
    }
    assert(v@ =~= Seq::new(n, |i: int| x));
}

/// Fills every entry of `v` with `x`.
fn fill_u8(v: &mut Vec<u8>, x: u8)
    ensures
        final(v)@ == Seq::new(old(v)@.len(), |i: int| x),
{
    let ghost n = v@.len();
    let mut k: usize = 0;
    while k < v.len()
        invariant
            k <= v@.len(),
            v@.len() == n,
            forall|i: int| 0 <= i < k ==> v@[i] == x,
        decreases v@.len() - k,
    {
        v.set(k, x);
        k += 1;
    }
    assert(v@ =~= Seq::new(n, |i: int| x));
}

/// Reads a four-bit value into each entry of `v`.
fn read_fsnr(reader: &mut BitReader, v: &mut Vec<i32>) -> (r: Result<(), ParseError>)
    requires
        old(reader).wf(),
    ensures
        final(reader).wf(),
        final(v)@.len() == old(v)@.len(),
        match spec_read_fsnr(old(reader)@, old(v)@, 0) {
            Ok((x, c)) => r is Ok && final(v)@ == x && final(reader)@ == c,
            Err(e) => r == Err::<(), ParseError>(e),
        },
{
    let mut k: usize = 0;
    while k < v.len()
        invariant
            reader.wf(),
            k <= v@.len(),
            v@.len() == old(v)@.len(),
            spec_read_fsnr(old(reader)@, old(v)@, 0) == spec_read_fsnr(reader@, v@, k as int),
        decreases v@.len() - k,
    {
        proof {
            lemma2_to64();
        }
        let x = rd(reader, 4)?;
        v.set(k, x as i32);
        k += 1;
    }
    Ok(())
}

/// Reads a three-bit gain code into each entry of `v`.
fn read_fgain(reader: &mut BitReader, v: &mut Vec<u8>) -> (r: Result<(), ParseError>)
    requires
        old(reader).wf(),
    ensures
        final(reader).wf(),
        final(v)@.len() == old(v)@.len(),
        match spec_read_fgain(old(reader)@, old(v)@, 0) {
            Ok((x, c)) => r is Ok && final(v)@ == x && final(reader)@ == c,
            Err(e) => r == Err::<(), ParseError>(e),
        },
{
    let mut k: usize = 0;
    while k < v.len()
        invariant
            reader.wf(),
            k <= v@.len(),
            v@.len() == old(v)@.len(),
            spec_read_fgain(old(reader)@, old(v)@, 0) == spec_read_fgain(reader@, v@, k as int),
        decreases v@.len() - k,
    {
        proof {
            lemma2_to64();
        }
        let x = rd(reader, 3)?;
        v.set(k, x as u8);
        k += 1;
    }
    Ok(())
}

impl BlockSyntaxState {
    /// Reads the bit-allocation parameters of a block.
    pub fn read_bit_allocation_params(
        &mut self,
        reader: &mut BitReader,
        n: usize,
        audio_frame: &AudioFrameInfo,
    ) -> (r: Result<(), ParseError>)
        requires
            old(reader).wf(),
            old(self)@.wf(n as nat),
        ensures
            final(reader).wf(),
            match spec_read_bit_allocation_params(old(reader)@, old(self)@, audio_frame@) {
                Ok((s, c)) => r is Ok && final(self)@ == s && final(reader)@ == c && s.wf(n as nat),
                Err(e) => r == Err::<(), ParseError>(e),
            },
    {
        let ghost s0 = self@;
        proof {
            lemma2_to64();
        }
        if audio_frame.bit_allocation_mode_enabled {
            if rflag(reader)? {
                let sdcy = rd(reader, 2)?;
                let fdcy = rd(reader, 2)?;
                let sgain = rd(reader, 2)?;
                let dbpb = rd(reader, 2)?;
                let floor = rd(reader, 3)?;
                self.bit_allocation_params = BitAllocationParams {
                    slow_decay_code: sdcy as u8,
                    fast_decay_code: fdcy as u8,
                    slow_gain_code: sgain as u8,
                    db_per_bit_code: dbpb as u8,
                    floor_code: floor as u8,
                };
            }
        } else {
            self.bit_allocation_params = BitAllocationParams::default_codes();
        }
        assert(self@.channel_delta_segments =~= s0.channel_delta_segments);
        Ok(())
    }

    /// Reads the fine SNR offsets of a block that sends its offsets.
    #[verifier::rlimit(80)]
    fn read_fine_snr(
        &mut self,
        reader: &mut BitReader,
        block: usize,
        n: usize,
        lfe_on: bool,
        audio_frame: &AudioFrameInfo,
    ) -> (r: Result<(), ParseError>)
        requires
            old(reader).wf(),
            old(self)@.wf(n as nat),
            frame_covers_block(audio_frame@, block as int, n as nat),
        ensures
            final(reader).wf(),
            match spec_fine_snr(old(reader)@, old(self)@, block as int, lfe_on, audio_frame@) {
                Ok((s, c)) => r is Ok && final(self)@ == s && final(reader)@ == c && s.wf(n as nat),
                Err(e) => r == Err::<(), ParseError>(e),
            },
    {
        proof {
            reveal(spec_fine_snr);
            lemma2_to64();
        }
        let ghost s0 = self@;
        if audio_frame.snr_offset_strategy == 1 {
            let x = rd(reader, 4)?;
            fill_i32(&mut self.channel_fsnr_offsets, x as i32);
            if lfe_on {
                self.lfe_fsnr_offset = x as i32;
            }
        } else if audio_frame.snr_offset_strategy == 2 {
            if audio_frame.coupling_in_use[block] {
                rskip(reader, 4)?;
            }
            read_fsnr(reader, &mut self.channel_fsnr_offsets)?;
            if lfe_on {
                let x = rd(reader, 4)?;
                self.lfe_fsnr_offset = x as i32;
            }
        }
        assert(self@.channel_delta_segments =~= s0.channel_delta_segments);
        Ok(())
    }

    /// Reads the SNR offsets of audio block `block`.
    #[verifier::rlimit(50)]
    pub fn read_snr_offsets(
        &mut self,
        reader: &mut BitReader,
        block: usize,
        n: usize,
        lfe_on: bool,
        audio_frame: &AudioFrameInfo,
    ) -> (r: Result<(), ParseError>)
        requires
            old(reader).wf(),
            old(self)@.wf(n as nat),
            frame_covers_block(audio_frame@, block as int, n as nat),
        ensures
            final(reader).wf(),
            match spec_read_snr_offsets(old(reader)@, old(self)@, block as int, lfe_on, audio_frame@) {
                Ok((s, c)) => r is Ok && final(self)@ == s && final(reader)@ == c && s.wf(n as nat),
                Err(e) => r == Err::<(), ParseError>(e),
            },
    {
        proof {
            reveal(spec_read_snr_offsets);
            lemma2_to64();
        }
        let ghost s0 = self@;
        if audio_frame.snr_offset_strategy == 0 {
            self.csnr_offset = match audio_frame.frame_csnr_offset {
                Some(x) => x as i32,
                None => 0,
            };
            let fsnr: i32 = match audio_frame.frame_fsnr_offset {
                Some(x) => x as i32,
                None => 0,
            };
            fill_i32(&mut self.channel_fsnr_offsets, fsnr);
            if lfe_on {
                self.lfe_fsnr_offset = fsnr;
            }
            assert(self@.channel_delta_segments =~= s0.channel_delta_segments);
            return Ok(());
        }
        let present = if block == 0 {
            true
        } else {
            rflag(reader)?
        };
        if !present {
            return Ok(());
        }
        let csnr = rd(reader, 6)?;
        self.csnr_offset = csnr as i32;
        assert(self@.channel_delta_segments =~= s0.channel_delta_segments);
        self.read_fine_snr(reader, block, n, lfe_on, audio_frame)?;
        Ok(())
    }

    /// Reads the fine gain codes of audio block `block`.
    pub fn read_frame_gain_codes(
        &mut self,
        reader: &mut BitReader,
        block: usize,
        n: usize,
        lfe_on: bool,
        audio_frame: &AudioFrameInfo,
    ) -> (r: Result<(), ParseError>)
        requires
            old(reader).wf(),
            old(self)@.wf(n as nat),
            frame_covers_block(audio_frame@, block as int, n as nat),
        ensures
            final(reader).wf(),
            match spec_read_frame_gain_codes(
                old(reader)@,
                old(self)@,
                block as int,
                lfe_on,
                audio_frame@,
            ) {
                Ok((s, c)) => r is Ok && final(self)@ == s && final(reader)@ == c && s.wf(n as nat),
                Err(e) => r == Err::<(), ParseError>(e),
            },
    {
        proof {
            reveal(spec_read_frame_gain_codes);
            lemma2_to64();
        }
        let ghost s0 = self@;
        let present = audio_frame.frame_gain_syntax_enabled && rflag(reader)?;
        if present {
            if audio_frame.coupling_in_use[block] {
                rskip(reader, 3)?;
            }
            read_fgain(reader, &mut self.channel_fgain_codes)?;
            if lfe_on {
                let x = rd(reader, 3)?;
                self.lfe_fgain_code = x as u8;
            }
        } else {
            fill_u8(&mut self.channel_fgain_codes, 4);
            if lfe_on {
                self.lfe_fgain_code = 4;
            }
        }
        assert(self@.channel_delta_segments =~= s0.channel_delta_segments);
        Ok(())
    }
}

/// Delta bit-allocation modes read, two bits each, into the entries of `modes` from `ch` on.
pub open spec fn spec_read_delta_modes(
    c: BitCursor,
    modes: Seq<DeltaBitAllocationMode>,
    ch: int,
) -> Result<(Seq<DeltaBitAllocationMode>, BitCursor), ParseError>
    decreases modes.len() - ch,
{
    if ch < 0 || ch >= modes.len() {
        Ok((modes, c))
    } else {
        match sread(c, 2) {
            Err(e) => Err(e),
            Ok((v, c1)) => match spec_delta_mode(v) {
                Err(e) => Err(e),
                Ok(m) => spec_read_delta_modes(c1, modes.update(ch, m), ch + 1),
            },
        }
    }
}

/// Segments `k..count` of a delta bit-allocation list, appended to `acc`.
pub open spec fn spec_segment_list(c: BitCursor, k: int, count: int, acc: Seq<DeltaSegment>) -> Result<
    (Seq<DeltaSegment>, BitCursor),
    ParseError,
>
    decreases count - k,
{
    if k >= count {
        Ok((acc, c))
    } else {
        match sread(c, 5) {
            Err(e) => Err(e),
            Ok((offset, c1)) => match sread(c1, 4) {
                Err(e) => Err(e),
                Ok((length, c2)) => match sread(c2, 3) {
                    Err(e) => Err(e),
                    Ok((ba, c3)) => spec_segment_list(
                        c3,
                        k + 1,
                        count,
                        acc.push(
                            DeltaSegment {
                                offset: offset as u8,
                                length: length as u8,
                                bit_allocation: ba as u8,
                            },
                        ),
                    ),
                },
            },
        }
    }
}

/// A delta bit-allocation list: a three-bit segment count less one, then the segments.
pub open spec fn spec_read_segments(c: BitCursor) -> Result<(Seq<DeltaSegment>, BitCursor), ParseError> {
    match sread(c, 3) {
        Err(e) => Err(e),
        Ok((nseg, c1)) => spec_segment_list(c1, 0, nseg + 1int, Seq::empty()),
    }
}

/// Segment lists of channels `ch..` whose mode announces new information.
pub open spec fn spec_channel_segments(
    c: BitCursor,
    modes: Seq<DeltaBitAllocationMode>,
    segments: Seq<Seq<DeltaSegment>>,
    ch: int,
) -> Result<(Seq<Seq<DeltaSegment>>, BitCursor), ParseError>
    decreases segments.len() - ch,
{
    if ch < 0 || ch >= segments.len() {
        Ok((segments, c))
    } else if 0 <= ch < modes.len() && modes[ch] == DeltaBitAllocationMode::NewInfoFollows {
        match spec_read_segments(c) {
            Err(e) => Err(e),
            Ok((list, c1)) => spec_channel_segments(c1, modes, segments.update(ch, list), ch + 1),
        }
    } else {
        spec_channel_segments(c, modes, segments, ch + 1)
    }
}

/// Delta bit-allocation syntax of audio block `block`: after a set flag, the coupling mode when
/// coupling is in use, each channel's mode, then the segment lists that the modes announce
/// (the coupling channel's list is read and dropped).
#[verifier::opaque]
pub open spec fn spec_read_delta_bit_allocation(
    c: BitCursor,
    s: BlockModel,
    block: int,
    af: AudioFrameModel,
) -> Result<(BlockModel, BitCursor), ParseError> {
    if !af.delta_bit_allocation_enabled {
        Ok((s, c))
    } else {
        match sflag(c) {
            Err(e) => Err(e),
            Ok((f, c1)) => if !f {
                Ok((s, c1))
            } else {
                let cpl: Result<(Option<DeltaBitAllocationMode>, BitCursor), ParseError> =
                    if af.coupling_in_use[block] {
                    match sread(c1, 2) {
                        Err(e) => Err(e),
                        Ok((v, c2)) => match spec_delta_mode(v) {
                            Err(e) => Err(e),
                            Ok(m) => Ok((Some(m), c2)),
                        },
                    }
                } else {
                    Ok((None, c1))
                };
                match cpl {
                    Err(e) => Err(e),
                    Ok((cpl_mode, c2)) => match spec_read_delta_modes(c2, s.channel_delta_modes, 0) {
                        Err(e) => Err(e),
                        Ok((modes, c3)) => {
                            let c4: Result<BitCursor, ParseError> = if cpl_mode == Some(
                                DeltaBitAllocationMode::NewInfoFollows,
                            ) {
                                match spec_read_segments(c3) {
                                    Err(e) => Err(e),
                                    Ok((_, c)) => Ok(c),
                                }
                            } else {
                                Ok(c3)
                            };
                            match c4 {
                                Err(e) => Err(e),
                                Ok(c4) => match spec_channel_segments(
                                    c4,
                                    modes,
                                    s.channel_delta_segments,
                                    0,
                                ) {
                                    Err(e) => Err(e),
                                    Ok((segments, c5)) => Ok(
                                        (
                                            BlockModel {
                                                channel_delta_modes: modes,
                                                channel_delta_segments: segments,
                                                ..s
                                            },
                                            c5,
                                        ),
                                    ),
                                },
                            }
                        },
                    },
                }
            },
        }
    }
}

/// Reads a delta bit-allocation segment list.
fn read_segments(reader: &mut BitReader) -> (r: Result<Vec<DeltaSegment>, ParseError>)
    requires
        old(reader).wf(),
    ensures
        final(reader).wf(),
        match spec_read_segments(old(reader)@) {
            Ok((v, c)) => r matches Ok(x) && x@ == v && final(reader)@ == c,
            Err(e) => r == Err::<Vec<DeltaSegment>, ParseError>(e),
        },
{
    proof {
        lemma2_to64();
    }
    let nseg = rd(reader, 3)?;
    let count = nseg as usize + 1;
    let mut list: Vec<DeltaSegment> = Vec::new();
    let mut k: usize = 0;
    while k < count
        invariant
            reader.wf(),
            count <= 8,
            k <= count,
            spec_read_segments(old(reader)@) == spec_segment_list(
                reader@,
                k as int,
                count as int,
                list@,
            ),
        decreases count - k,
    {
        proof {
            lemma2_to64();
        }
        let offset = rd(reader, 5)?;
        let length = rd(reader, 4)?;
        let ba = rd(reader, 3)?;
        list.push(
            DeltaSegment { offset: offset as u8, length: length as u8, bit_allocation: ba as u8 },
        );
        k += 1;
    }
    Ok(list)
}

impl BlockSyntaxState {
    /// Reads the delta bit-allocation mode of every channel.
    fn read_delta_modes(&mut self, reader: &mut BitReader, n: usize) -> (r: Result<(), ParseError>)
        requires
            old(reader).wf(),
            old(self)@.wf(n as nat),
        ensures
            final(reader).wf(),
            match spec_read_delta_modes(old(reader)@, old(self)@.channel_delta_modes, 0) {
                Ok((m, c)) => r is Ok && final(self)@ == (BlockModel {
                    channel_delta_modes: m,
                    ..old(self)@
                }) && final(reader)@ == c && m.len() == n,
                Err(e) => r == Err::<(), ParseError>(e),
            },
    {
        let ghost s0 = self@;
        let mut ch: usize = 0;
        while ch < n
            invariant
                reader.wf(),
                s0 == old(self)@,
                s0.wf(n as nat),
                ch <= n,
                self@ == (BlockModel { channel_delta_modes: self@.channel_delta_modes, ..s0 }),
                self@.channel_delta_modes.len() == n,
                spec_read_delta_modes(old(reader)@, s0.channel_delta_modes, 0)
                    == spec_read_delta_modes(reader@, self@.channel_delta_modes, ch as int),
            decreases n - ch,
        {
            proof {
                lemma2_to64();
            }
            let v = rd(reader, 2)?;
            let m = DeltaBitAllocationMode::from_bits(v)?;
            self.channel_delta_modes.set(ch, m);
            assert(self@.channel_delta_segments =~= s0.channel_delta_segments);
            ch += 1;
        }
        Ok(())
    }

    /// Reads the segment lists of the channels whose mode announces new information.
    fn read_channel_segments(&mut self, reader: &mut BitReader, n: usize) -> (r: Result<
        (),
        ParseError,
    >)
        requires
            old(reader).wf(),
            old(self)@.wf(n as nat),
        ensures
            final(reader).wf(),
            match spec_channel_segments(
                old(reader)@,
                old(self)@.channel_delta_modes,
                old(self)@.channel_delta_segments,
                0,
            ) {
                Ok((sg, c)) => r is Ok && final(self)@ == (BlockModel {
                    channel_delta_segments: sg,
                    ..old(self)@
                }) && final(reader)@ == c && sg.len() == n,
                Err(e) => r == Err::<(), ParseError>(e),
            },
    {
        let ghost s0 = self@;
        let mut ch: usize = 0;
        while ch < n
            invariant
                reader.wf(),
                s0 == old(self)@,
                s0.wf(n as nat),
                ch <= n,
                self@ == (BlockModel { channel_delta_segments: self@.channel_delta_segments, ..s0 }),
                self.channel_delta_segments@.len() == n,
                spec_channel_segments(
                    old(reader)@,
                    s0.channel_delta_modes,
                    s0.channel_delta_segments,
                    0,
                ) == spec_channel_segments(
                    reader@,
                    s0.channel_delta_modes,
                    self@.channel_delta_segments,
                    ch as int,
                ),
            decreases n - ch,
        {
            if self.channel_delta_modes[ch] == DeltaBitAllocationMode::NewInfoFollows {
                let ghost before = self@.channel_delta_segments;
                let list = read_segments(reader)?;
                let ghost lv = list@;
                self.channel_delta_segments.set(ch, list);
                assert(self@.channel_delta_segments =~= before.update(ch as int, lv));
            }
            ch += 1;
        }
        Ok(())
    }

    /// Reads the delta bit-allocation syntax of audio block `block`.
    pub fn read_delta_bit_allocation(
        &mut self,
        reader: &mut BitReader,
        block: usize,
        n: usize,
        audio_frame: &AudioFrameInfo,
    ) -> (r: Result<(), ParseError>)
        requires
            old(reader).wf(),
            old(self)@.wf(n as nat),
            frame_covers_block(audio_frame@, block as int, n as nat),
        ensures
            final(reader).wf(),
            match spec_read_delta_bit_allocation(old(reader)@, old(self)@, block as int, audio_frame@) {
                Ok((s, c)) => r is Ok && final(self)@ == s && final(reader)@ == c && s.wf(n as nat),
                Err(e) => r == Err::<(), ParseError>(e),
            },
    {
        proof {
            reveal(spec_read_delta_bit_allocation);
            lemma2_to64();
        }
        if !audio_frame.delta_bit_allocation_enabled {
            return Ok(());
        }
        if !rflag(reader)? {
            return Ok(());
        }
        let coupling_mode = if audio_frame.coupling_in_use[block] {
            let v = rd(reader, 2)?;
            Some(DeltaBitAllocationMode::from_bits(v)?)
        } else {
            None
        };
        self.read_delta_modes(reader, n)?;
        if coupling_mode == Some(DeltaBitAllocationMode::NewInfoFollows) {
            let _ignored = read_segments(reader)?;
        }
        self.read_channel_segments(reader, n)?;
        Ok(())
    }
}

} // verus!
