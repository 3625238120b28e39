//! The audio-block walker: the syntax of one audio block, and the skip fields collected from
//! all blocks of a frame.

use crate::bitreader::{BitCursor, BitReader, MAX_READER_BYTES};
use crate::syncframe::block::{spec_new_state, spec_read_spx, BlockModel, BlockSyntaxState};
use crate::syncframe::coupling::{spec_read_coupling_coordinates, spec_read_coupling_strategy};
use crate::syncframe::params::{
    frame_covers_block, spec_read_bit_allocation_params, spec_read_delta_bit_allocation,
    spec_read_exponents, spec_read_frame_gain_codes, spec_read_snr_offsets,
};
use crate::syncframe::skip::{skip_fields_view, SkipFieldModel};
use crate::syncframe::types::{
    rd, rflag, rskip, scond_skip, sflag, sread, sskip, skip_conditional_bits, AudioFrameInfo,
    AudioFrameModel, FrameType, ParseError, SkipFieldInfo,
};
use vstd::arithmetic::power2::lemma2_to64;
use vstd::prelude::*;

verus! {

/// Leading fields of an audio block up to the coupling coordinates: block-switch and dither
/// flags, dynamic range, spectral extension and coupling.
#[verifier::opaque]
pub open spec fn spec_block_front(
    c: BitCursor,
    s: BlockModel,
    block: int,
    channel_mode: u8,
    n: nat,
    af: AudioFrameModel,
) -> Result<(BlockModel, BitCursor), ParseError> {
    let c1: Result<BitCursor, ParseError> = if af.block_switching_enabled {
        sskip(c, n as int)
    } else {
        Ok(c)
    };
    match c1 {
        Err(e) => Err(e),
        Ok(c1) => {
            let c2: Result<BitCursor, ParseError> = if af.dithering_enabled {
                sskip(c1, n as int)
            } else {
                Ok(c1)
            };
            match c2 {
                Err(e) => Err(e),
                Ok(c2) => match scond_skip(c2, 8) {
                    Err(e) => Err(e),
                    Ok(c3) => {
                        let c4: Result<BitCursor, ParseError> = if channel_mode == 0 {
                            scond_skip(c3, 8)
                        } else {
                            Ok(c3)
                        };
                        match c4 {
                            Err(e) => Err(e),
                            Ok(c4) => match spec_read_spx(c4, s, block, channel_mode) {
                                Err(e) => Err(e),
                                Ok((s1, c5)) => match spec_read_coupling_strategy(
                                    c5,
                                    s1,
                                    block,
                                    channel_mode,
                                    af,
                                ) {
                                    Err(e) => Err(e),
                                    Ok((s2, c6)) => spec_read_coupling_coordinates(
                                        c6,
                                        s2,
                                        block,
                                        channel_mode,
                                        af,
                                    ),
                                },
                            },
                        }
                    },
                },
            }
        },
    }
}

/// Allocation fields of an audio block: exponents, bit-allocation parameters, SNR offsets and
/// gains. Returns the end mantissa of each channel too.
#[verifier::opaque]
pub open spec fn spec_block_allocation(
    c: BitCursor,
    s: BlockModel,
    block: int,
    lfe_on: bool,
    af: AudioFrameModel,
) -> Result<(BlockModel, Seq<usize>, BitCursor), ParseError> {
    match spec_read_exponents(c, s, block, lfe_on, af) {
        Err(e) => Err(e),
        Ok((s1, ends, c1)) => match spec_read_bit_allocation_params(c1, s1, af) {
            Err(e) => Err(e),
            Ok((s2, c2)) => match spec_read_snr_offsets(c2, s2, block, lfe_on, af) {
                Err(e) => Err(e),
                Ok((s3, c3)) => match spec_read_frame_gain_codes(c3, s3, block, lfe_on, af) {
                    Err(e) => Err(e),
                    Ok((s4, c4)) => Ok((s4, ends, c4)),
                },
            },
        },
    }
}

/// Converter SNR offset (independent frames), coupling leak values and delta bit allocation.
#[verifier::opaque]
pub open spec fn spec_block_tail(
    c: BitCursor,
    s: BlockModel,
    block: int,
    frame_type: FrameType,
    af: AudioFrameModel,
) -> Result<(BlockModel, BitCursor), ParseError> {
    let c1: Result<BitCursor, ParseError> = if frame_type == FrameType::Independent {
        scond_skip(c, 10)
    } else {
        Ok(c)
    };
    match c1 {
        Err(e) => Err(e),
        Ok(c1) => {
            let leak: Result<(BlockModel, BitCursor), ParseError> = if af.coupling_in_use[block] {
                if s.first_cpl_leak {
                    match sskip(c1, 6) {
                        Err(e) => Err(e),
                        Ok(c2) => Ok((BlockModel { first_cpl_leak: false, ..s }, c2)),
                    }
                } else {
                    match scond_skip(c1, 6) {
                        Err(e) => Err(e),
                        Ok(c2) => Ok((s, c2)),
                    }
                }
            } else {
                Ok((s, c1))
            };
            match leak {
                Err(e) => Err(e),
                Ok((s1, c2)) => spec_read_delta_bit_allocation(c2, s1, block, af),
            }
        },
    }
}

/// The skip field of audio block `block`: after a set flag, a nine-bit byte count and the
/// bytes, which start at the returned bit offset.
pub open spec fn spec_read_skip_field(c: BitCursor, block: int, af: AudioFrameModel) -> Result<
    (Option<SkipFieldModel>, BitCursor),
    ParseError,
> {
    if !af.skip_field_syntax_enabled {
        Ok((None, c))
    } else {
        match sflag(c) {
            Err(e) => Err(e),
            Ok((present, c1)) => if !present {
                Ok((None, c1))
            } else {
                match sread(c1, 9) {
                    Err(e) => Err(e),
                    Ok((length, c2)) => match c2.read_bytes(length) {
                        None => Err(ParseError::ShortPacket),
                        Some((bytes, c3)) => Ok(
                            (
                                Some(
                                    SkipFieldModel {
                                        block_index: Some(block as usize),
                                        bit_offset: c2.pos as usize,
                                        bytes,
                                    },
                                ),
                                c3,
                            ),
                        ),
                    },
                }
            },
        }
    }
}

/// The mantissas of channels `ch..` occupy no bits: each end mantissa lies in range and each
/// channel's coarse and fine SNR offsets are zero. A nonzero offset needs the bit-allocation
/// model, which this walker does not carry.
pub open spec fn spec_mantissa_channels(s: BlockModel, ends: Seq<usize>, ch: int) -> Result<
    (),
    ParseError,
>
    decreases ends.len() - ch,
{
    if ch < 0 || ch >= ends.len() {
        Ok(())
    } else if ends[ch] > 256 {
        Err(ParseError::InvalidHeader("mantissa-range"))
    } else if !(s.csnr_offset == 0 && s.channel_fsnr_offsets[ch] == 0) {
        Err(ParseError::UnsupportedFeature("bit-allocation"))
    } else {
        spec_mantissa_channels(s, ends, ch + 1)
    }
}

/// Mantissas of an audio block, when the walk has no block start offsets to skip them by.
pub open spec fn spec_consume_mantissas(
    s: BlockModel,
    block: int,
    lfe_on: bool,
    af: AudioFrameModel,
    ends: Seq<usize>,
) -> Result<(), ParseError> {
    if s.spx_in_use {
        Err(ParseError::UnsupportedFeature("spx-no-blkstart"))
    } else if af.coupling_in_use[block] {
        Err(ParseError::UnsupportedFeature("coupling-no-blkstart"))
    } else {
        match spec_mantissa_channels(s, ends, 0) {
            Err(e) => Err(e),
            Ok(_) => if lfe_on && s.lfe_on && !(s.csnr_offset == 0 && s.lfe_fsnr_offset == 0) {
                Err(ParseError::UnsupportedFeature("bit-allocation"))
            } else {
                Ok(())
            },
        }
    }
}

/// One audio block: its syntax, the skip field it carries, and (when `consume_mantissas`)
/// its mantissas.
pub open spec fn spec_parse_block(
    c: BitCursor,
    s: BlockModel,
    block: int,
    frame_type: FrameType,
    channel_mode: u8,
    n: nat,
    lfe_on: bool,
    af: AudioFrameModel,
    consume_mantissas: bool,
) -> Result<(Option<SkipFieldModel>, BlockModel, BitCursor), ParseError> {
    match spec_block_front(c, s, block, channel_mode, n, af) {
        Err(e) => Err(e),
        Ok((s1, c1)) => match spec_block_allocation(c1, s1, block, lfe_on, af) {
            Err(e) => Err(e),
            Ok((s2, ends, c2)) => match spec_block_tail(c2, s2, block, frame_type, af) {
                Err(e) => Err(e),
                Ok((s3, c3)) => match spec_read_skip_field(c3, block, af) {
                    Err(e) => Err(e),
                    Ok((skip, c4)) => if consume_mantissas {
                        match spec_consume_mantissas(s3, block, lfe_on, af, ends) {
                            Err(e) => Err(e),
                            Ok(_) => Ok((skip, s3, c4)),
                        }
                    } else {
                        Ok((skip, s3, c4))
                    },
                },
            },
        },
    }
}

/// The audio-frame tables cover blocks `0..num_blocks` with `n` channels each.
pub open spec fn frame_covers_blocks(af: AudioFrameModel, num_blocks: nat, n: nat) -> bool {
    forall|b: int| 0 <= b < num_blocks ==> #[trigger] frame_covers_block(af, b, n)
}

impl BlockSyntaxState {
    /// Reads the leading fields of an audio block, up to the coupling coordinates.
    fn read_block_front(
        &mut self,
        reader: &mut BitReader,
        block: usize,
        channel_mode: u8,
        n: usize,
        audio_frame: &AudioFrameInfo,
    ) -> (r: Result<(), ParseError>)
        requires
            old(reader).wf(),
            old(self)@.wf(n as nat),
            frame_covers_block(audio_frame@, block as int, n as nat),
        ensures
            final(reader).wf(),
            match spec_block_front(
                old(reader)@,
                old(self)@,
                block as int,
                channel_mode,
                n as nat,
                audio_frame@,
            ) {
                Ok((s, c)) => r is Ok && final(self)@ == s && final(reader)@ == c && s.wf(n as nat),
                Err(e) => r == Err::<(), ParseError>(e),
            },
    {
        proof {
            reveal(spec_block_front);
        }
        if audio_frame.block_switching_enabled {
            rskip(reader, n)?;
        }
        if audio_frame.dithering_enabled {
            rskip(reader, n)?;
        }
        skip_conditional_bits(reader, 8)?;
        if channel_mode == 0 {
            skip_conditional_bits(reader, 8)?;
        }
        self.read_spx(reader, block, channel_mode, n)?;
        self.read_coupling_strategy(reader, block, channel_mode, n, audio_frame)?;
        self.read_coupling_coordinates(reader, block, channel_mode, n, audio_frame)?;
        Ok(())
    }

    /// Reads the allocation fields of an audio block; returns each channel's end mantissa.
    fn read_block_allocation(
        &mut self,
        reader: &mut BitReader,
        block: usize,
        n: usize,
        lfe_on: bool,
        audio_frame: &AudioFrameInfo,
    ) -> (r: Result<Vec<usize>, ParseError>)
        requires
            old(reader).wf(),
            old(self)@.wf(n as nat),
            frame_covers_block(audio_frame@, block as int, n as nat),
        ensures
            final(reader).wf(),
            match spec_block_allocation(
                old(reader)@,
                old(self)@,
                block as int,
                lfe_on,
                audio_frame@,
            ) {
                Ok((s, ends, c)) => r matches Ok(v) && v@ == ends && final(self)@ == s
                    && final(reader)@ == c && s.wf(n as nat) && ends.len() == n,
                Err(e) => r == Err::<Vec<usize>, ParseError>(e),
            },
    {
        proof {
            reveal(spec_block_allocation);
        }
        let ends = self.read_exponents(reader, block, n, lfe_on, audio_frame)?;
        self.read_bit_allocation_params(reader, n, audio_frame)?;
        self.read_snr_offsets(reader, block, n, lfe_on, audio_frame)?;
        self.read_frame_gain_codes(reader, block, n, lfe_on, audio_frame)?;
        Ok(ends)
    }

    /// Reads the converter SNR offset, coupling leak values and delta bit allocation.
    fn read_block_tail(
        &mut self,
        reader: &mut BitReader,
        block: usize,
        frame_type: FrameType,
        n: usize,
        audio_frame: &AudioFrameInfo,
    ) -> (r: Result<(), ParseError>)
        requires
            old(reader).wf(),
            old(self)@.wf(n as nat),
            frame_covers_block(audio_frame@, block as int, n as nat),
        ensures
            final(reader).wf(),
            match spec_block_tail(old(reader)@, old(self)@, block as int, frame_type, audio_frame@) {
                Ok((s, c)) => r is Ok && final(self)@ == s && final(reader)@ == c && s.wf(n as nat),
                Err(e) => r == Err::<(), ParseError>(e),
            },
    {
        proof {
            reveal(spec_block_tail);
        }
        let ghost s0 = self@;
        if frame_type == FrameType::Independent {
            skip_conditional_bits(reader, 10)?;
        }
        if audio_frame.coupling_in_use[block] {
            if self.first_cpl_leak {
                self.first_cpl_leak = false;
                rskip(reader, 6)?;
            } else {
                skip_conditional_bits(reader, 6)?;
            }
        }
        assert(self@.channel_delta_segments =~= s0.channel_delta_segments);
        self.read_delta_bit_allocation(reader, block, n, audio_frame)?;
        Ok(())
    }

    /// Checks that the mantissas of an audio block occupy no bits.
    fn consume_block_mantissas(
        &self,
        block: usize,
        lfe_on: bool,
        audio_frame: &AudioFrameInfo,
        ends: &Vec<usize>,
    ) -> (r: Result<(), ParseError>)
        requires
            block < audio_frame@.coupling_in_use.len(),
            ends@.len() <= self@.channel_fsnr_offsets.len(),
        ensures
            r == spec_consume_mantissas(self@, block as int, lfe_on, audio_frame@, ends@),
    {
        if self.spx_in_use {
            return Err(ParseError::UnsupportedFeature("spx-no-blkstart"));
        }
        if audio_frame.coupling_in_use[block] {
            return Err(ParseError::UnsupportedFeature("coupling-no-blkstart"));
        }
        let mut ch: usize = 0;
        while ch < ends.len()
            invariant
                ch <= ends@.len(),
                ends@.len() <= self@.channel_fsnr_offsets.len(),
                !self@.spx_in_use,
                block < audio_frame@.coupling_in_use.len(),
                !audio_frame@.coupling_in_use[block as int],
                spec_mantissa_channels(self@, ends@, 0) == spec_mantissa_channels(
                    self@,
                    ends@,
                    ch as int,
                ),
            decreases ends@.len() - ch,
        {
            if ends[ch] > 256 {
                return Err(ParseError::InvalidHeader("mantissa-range"));
            }
            if !(self.csnr_offset == 0 && self.channel_fsnr_offsets[ch] == 0) {
                return Err(ParseError::UnsupportedFeature("bit-allocation"));
            }
            ch += 1;
        }
        if lfe_on && self.lfe_on && !(self.csnr_offset == 0 && self.lfe_fsnr_offset == 0) {
            return Err(ParseError::UnsupportedFeature("bit-allocation"));
        }
        Ok(())
    }

    /// Parses audio block `block`: its syntax, the skip field it carries and, when
    /// `consume_mantissas`, its mantissas.
    pub fn parse_block(
        &mut self,
        reader: &mut BitReader,
        block: usize,
        frame_type: FrameType,
        channel_mode: u8,
        n: usize,
        lfe_on: bool,
        audio_frame: &AudioFrameInfo,
        consume_mantissas: bool,
    ) -> (r: Result<Option<SkipFieldInfo>, ParseError>)
        requires
            old(reader).wf(),
            old(self)@.wf(n as nat),
            frame_covers_block(audio_frame@, block as int, n as nat),
        ensures
            final(reader).wf(),
            match spec_parse_block(
                old(reader)@,
                old(self)@,
                block as int,
                frame_type,
                channel_mode,
                n as nat,
                lfe_on,
                audio_frame@,
                consume_mantissas,
            ) {
                Ok((skip, s, c)) => r matches Ok(f) && (match f {
                    Some(x) => skip == Some(x@),
                    None => skip is None,
                }) && final(self)@ == s && final(reader)@ == c && s.wf(n as nat),
                Err(e) => r == Err::<Option<SkipFieldInfo>, ParseError>(e),
            },
            r matches Ok(Some(f)) ==> f.bytes@.len() < 512,
    {
        self.read_block_front(reader, block, channel_mode, n, audio_frame)?;
        let ends = self.read_block_allocation(reader, block, n, lfe_on, audio_frame)?;
        self.read_block_tail(reader, block, frame_type, n, audio_frame)?;
        let mut skip_field: Option<SkipFieldInfo> = None;
        if audio_frame.skip_field_syntax_enabled && rflag(reader)? {
            proof {
                crate::bitreader::lemma_bits_value_bound(reader@.data, reader@.pos, 9);
                lemma2_to64();
            }
            let skip_length = rd(reader, 9)? as usize;
            let bit_offset = reader.position();
            let bytes = match reader.read_bytes(skip_length) {
                Some(b) => b,
                None => return Err(ParseError::ShortPacket),
            };
            skip_field = Some(SkipFieldInfo { block_index: Some(block), bit_offset, bytes });
        }
        if consume_mantissas {
            self.consume_block_mantissas(block, lfe_on, audio_frame, &ends)?;
        }
        Ok(skip_field)
    }
}

/// Start bit of each audio block: the payload start for a single block, else the transmitted
/// offsets, one per block.
pub open spec fn spec_block_starts(
    num_blocks: nat,
    offsets: Option<Seq<usize>>,
    af: AudioFrameModel,
) -> Result<Seq<usize>, ParseError> {
    if num_blocks == 1 {
        Ok(seq![af.block_payload_start_bit_offset as usize])
    } else {
        match offsets {
            Some(o) => if o.len() == num_blocks {
                Ok(o)
            } else {
                Err(ParseError::InvalidHeader("block-start-info"))
            },
            None => Err(ParseError::InvalidHeader("block-start-info")),
        }
    }
}

/// A read limit of `end` bits, clamped to a frame of `frame_len` bytes.
pub open spec fn spec_block_limit(frame_len: nat, end: int) -> int {
    if end <= frame_len * 8 {
        end
    } else {
        (frame_len * 8) as int
    }
}

/// Skip fields of blocks `block..` of a frame whose block start offsets are known: each block
/// is parsed between its start and the next block's start (the last one up to `end_bit`),
/// with the syntax state carried over; the fields found are appended to `acc`.
pub open spec fn spec_collect_blocks(
    frame: Seq<u8>,
    starts: Seq<usize>,
    end_bit: int,
    s: BlockModel,
    block: int,
    frame_type: FrameType,
    channel_mode: u8,
    n: nat,
    lfe_on: bool,
    af: AudioFrameModel,
    acc: Seq<SkipFieldModel>,
) -> Result<Seq<SkipFieldModel>, ParseError>
    decreases starts.len() - block,
{
    if block < 0 || block >= starts.len() {
        Ok(acc)
    } else {
        let start = starts[block] as int;
        let end = if block + 1 < starts.len() {
            starts[block + 1] as int
        } else {
            end_bit
        };
        if end < start {
            Err(ParseError::InvalidHeader("block-start-info"))
        } else {
            let c = BitCursor { data: frame, pos: start, limit: spec_block_limit(frame.len(), end) };
            match spec_parse_block(c, s, block, frame_type, channel_mode, n, lfe_on, af, false) {
                Err(e) => Err(e),
                Ok((skip, s1, _)) => spec_collect_blocks(
                    frame,
                    starts,
                    end_bit,
                    s1,
                    block + 1,
                    frame_type,
                    channel_mode,
                    n,
                    lfe_on,
                    af,
                    match skip {
                        Some(f) => acc.push(f),
                        None => acc,
                    },
                ),
            }
        }
    }
}

/// Skip fields of a frame whose audio blocks start at known offsets.
pub open spec fn spec_collect_skip_fields(
    frame: Seq<u8>,
    frame_type: FrameType,
    num_blocks: nat,
    channel_mode: u8,
    n: nat,
    lfe_on: bool,
    af: AudioFrameModel,
    offsets: Option<Seq<usize>>,
    end_bit: int,
    sample_rate_index: usize,
) -> Result<Seq<SkipFieldModel>, ParseError> {
    match spec_block_starts(num_blocks, offsets, af) {
        Err(e) => Err(e),
        Ok(starts) => if end_bit > frame.len() * 8 {
            Err(ParseError::InvalidHeader("block-start-info"))
        } else {
            spec_collect_blocks(
                frame,
                starts,
                end_bit,
                spec_new_state(n, lfe_on, sample_rate_index),
                0,
                frame_type,
                channel_mode,
                n,
                lfe_on,
                af,
                Seq::empty(),
            )
        },
    }
}

/// Blocks `block..num_blocks` parsed one after another from `c`, mantissas included, with the
/// skip fields found appended to `acc`.
pub open spec fn spec_walk_blocks(
    c: BitCursor,
    s: BlockModel,
    block: int,
    num_blocks: nat,
    frame_type: FrameType,
    channel_mode: u8,
    n: nat,
    lfe_on: bool,
    af: AudioFrameModel,
    acc: Seq<SkipFieldModel>,
) -> Result<(Seq<SkipFieldModel>, BitCursor), ParseError>
    decreases num_blocks - block,
{
    if block < 0 || block >= num_blocks {
        Ok((acc, c))
    } else {
        match spec_parse_block(c, s, block, frame_type, channel_mode, n, lfe_on, af, true) {
            Err(e) => Err(e),
            Ok((skip, s1, c1)) => spec_walk_blocks(
                c1,
                s1,
                block + 1,
                num_blocks,
                frame_type,
                channel_mode,
                n,
                lfe_on,
                af,
                match skip {
                    Some(f) => acc.push(f),
                    None => acc,
                },
            ),
        }
    }
}

/// Skip fields of a frame without block start offsets: the blocks are walked in sequence from
/// the payload start, and the walk must not end past `end_bit`.
pub open spec fn spec_collect_skip_fields_without_block_start(
    frame: Seq<u8>,
    frame_type: FrameType,
    num_blocks: nat,
    channel_mode: u8,
    n: nat,
    lfe_on: bool,
    af: AudioFrameModel,
    end_bit: int,
    sample_rate_index: usize,
) -> Result<Seq<SkipFieldModel>, ParseError> {
    let c = BitCursor {
        data: frame,
        pos: af.block_payload_start_bit_offset,
        limit: spec_block_limit(frame.len(), end_bit),
    };
    match spec_walk_blocks(
        c,
        spec_new_state(n, lfe_on, sample_rate_index),
        0,
        num_blocks,
        frame_type,
        channel_mode,
        n,
        lfe_on,
        af,
        Seq::empty(),
    ) {
        Err(e) => Err(e),
        Ok((fields, c1)) => if c1.pos > end_bit {
            Err(ParseError::InvalidHeader("block-end"))
        } else {
            Ok(fields)
        },
    }
}

/// The skip-field list after a block that yielded `skip`.
pub open spec fn spec_with_skip(acc: Seq<SkipFieldModel>, skip: Option<SkipFieldModel>) -> Seq<
    SkipFieldModel,
> {
    match skip {
        Some(f) => acc.push(f),
        None => acc,
    }
}

/// Collects the skip fields of a frame whose audio blocks start at known offsets.
pub fn collect_skip_fields(
    frame: &[u8],
    frame_type: FrameType,
    num_blocks: usize,
    channel_mode: u8,
    fullband_channels: usize,
    lfe_on: bool,
    audio_frame: &AudioFrameInfo,
    block_start_bit_offsets: Option<&[usize]>,
    audio_payload_end_bit: usize,
    sample_rate_index: usize,
) -> (r: Result<Vec<SkipFieldInfo>, ParseError>)
    requires
        frame@.len() <= MAX_READER_BYTES,
        frame_covers_blocks(audio_frame@, num_blocks as nat, fullband_channels as nat),
    ensures
        match spec_collect_skip_fields(
            frame@,
            frame_type,
            num_blocks as nat,
            channel_mode,
            fullband_channels as nat,
            lfe_on,
            audio_frame@,
            match block_start_bit_offsets {
                Some(o) => Some(o@),
                None => None,
            },
            audio_payload_end_bit as int,
            sample_rate_index,
        ) {
            Ok(fields) => r matches Ok(v) && skip_fields_view(v@) == fields,
            Err(e) => r == Err::<Vec<SkipFieldInfo>, ParseError>(e),
        },
        r matches Ok(v) ==> v@.len() <= num_blocks && forall|i: int|
            0 <= i < v@.len() ==> (#[trigger] v@[i]).bytes@.len() < 512,
{
    let mut block_starts: Vec<usize> = Vec::new();
    if num_blocks == 1 {
        block_starts.push(audio_frame.block_payload_start_bit_offset);
        assert(block_starts@ =~= seq![audio_frame@.block_payload_start_bit_offset as usize]);
    } else {
        match block_start_bit_offsets {
            Some(offsets) => {
                if offsets.len() != num_blocks {
                    return Err(ParseError::InvalidHeader("block-start-info"));
                }
                let mut k: usize = 0;
                while k < offsets.len()
                    invariant
                        k <= offsets@.len(),
                        block_starts@ == offsets@.subrange(0, k as int),
                    decreases offsets@.len() - k,
                {
                    block_starts.push(offsets[k]);
                    k += 1;
                    assert(block_starts@ =~= offsets@.subrange(0, k as int));
                }
                assert(block_starts@ =~= offsets@);
            },
            None => {
                return Err(ParseError::InvalidHeader("block-start-info"));
            },
        }
    }
    if audio_payload_end_bit / 8 > frame.len() || audio_payload_end_bit > frame.len() * 8 {
        return Err(ParseError::InvalidHeader("block-start-info"));
    }
    let ghost total = spec_collect_blocks(
        frame@,
        block_starts@,
        audio_payload_end_bit as int,
        spec_new_state(fullband_channels as nat, lfe_on, sample_rate_index),
        0,
        frame_type,
        channel_mode,
        fullband_channels as nat,
        lfe_on,
        audio_frame@,
        Seq::empty(),
    );
    let ghost whole = spec_collect_skip_fields(
        frame@,
        frame_type,
        num_blocks as nat,
        channel_mode,
        fullband_channels as nat,
        lfe_on,
        audio_frame@,
        match block_start_bit_offsets {
            Some(o) => Some(o@),
            None => None,
        },
        audio_payload_end_bit as int,
        sample_rate_index,
    );
    assert(whole == total);
    let mut state = BlockSyntaxState::new(fullband_channels, lfe_on, sample_rate_index);
    let mut skip_fields: Vec<SkipFieldInfo> = Vec::new();
    assert(skip_fields_view(skip_fields@) =~= Seq::empty());
    let mut block: usize = 0;
    while block < num_blocks
        invariant
            whole == total,
            whole == spec_collect_skip_fields(
                frame@,
                frame_type,
                num_blocks as nat,
                channel_mode,
                fullband_channels as nat,
                lfe_on,
                audio_frame@,
                match block_start_bit_offsets {
                    Some(o) => Some(o@),
                    None => None,
                },
                audio_payload_end_bit as int,
                sample_rate_index,
            ),
            frame@.len() <= MAX_READER_BYTES,
            frame_covers_blocks(audio_frame@, num_blocks as nat, fullband_channels as nat),
            block_starts@.len() == num_blocks,
            block <= num_blocks,
            skip_fields@.len() <= block,
            forall|i: int| 0 <= i < skip_fields@.len() ==> (#[trigger] skip_fields@[i]).bytes@.len() < 512,
            state@.wf(fullband_channels as nat),
            total == spec_collect_blocks(
                frame@,
                block_starts@,
                audio_payload_end_bit as int,
                state@,
                block as int,
                frame_type,
                channel_mode,
                fullband_channels as nat,
                lfe_on,
                audio_frame@,
                skip_fields_view(skip_fields@),
            ),
        decreases num_blocks - block,
    {
        let block_start = block_starts[block];
        let block_end = if block + 1 < block_starts.len() {
            block_starts[block + 1]
        } else {
            audio_payload_end_bit
        };
        if block_end < block_start {
            return Err(ParseError::InvalidHeader("block-start-info"));
        }
        let mut reader = BitReader::with_offset(frame, block_start);
        reader.set_limit_bits(block_end);
        assert(frame_covers_block(audio_frame@, block as int, fullband_channels as nat));
        let ghost before = skip_fields_view(skip_fields@);
        let found = state.parse_block(
            &mut reader,
            block,
            frame_type,
            channel_mode,
            fullband_channels,
            lfe_on,
            audio_frame,
            false,
        )?;
        match found {
            Some(field) => {
                let ghost fv = field@;
                skip_fields.push(field);
                assert(skip_fields_view(skip_fields@) =~= before.push(fv));
            },
            None => {},
        }
        block += 1;
    }
    Ok(skip_fields)
}

/// Collects the skip fields of a frame without block start offsets by walking its blocks in
/// sequence, mantissas included.
pub fn collect_skip_fields_without_block_start(
    frame: &[u8],
    frame_type: FrameType,
    num_blocks: usize,
    channel_mode: u8,
    fullband_channels: usize,
    lfe_on: bool,
    audio_frame: &AudioFrameInfo,
    audio_payload_end_bit: usize,
    sample_rate_index: usize,
) -> (r: Result<Vec<SkipFieldInfo>, ParseError>)
    requires
        frame@.len() <= MAX_READER_BYTES,
        frame_covers_blocks(audio_frame@, num_blocks as nat, fullband_channels as nat),
    ensures
        match spec_collect_skip_fields_without_block_start(
            frame@,
            frame_type,
            num_blocks as nat,
            channel_mode,
            fullband_channels as nat,
            lfe_on,
            audio_frame@,
            audio_payload_end_bit as int,
            sample_rate_index,
        ) {
            Ok(fields) => r matches Ok(v) && skip_fields_view(v@) == fields,
            Err(e) => r == Err::<Vec<SkipFieldInfo>, ParseError>(e),
        },
        r matches Ok(v) ==> v@.len() <= num_blocks && forall|i: int|
            0 <= i < v@.len() ==> (#[trigger] v@[i]).bytes@.len() < 512,
{
    let mut reader = BitReader::with_offset(frame, audio_frame.block_payload_start_bit_offset);
    reader.set_limit_bits(audio_payload_end_bit);
    let ghost total = spec_walk_blocks(
        reader@,
        spec_new_state(fullband_channels as nat, lfe_on, sample_rate_index),
        0,
        num_blocks as nat,
        frame_type,
        channel_mode,
        fullband_channels as nat,
        lfe_on,
        audio_frame@,
        Seq::empty(),
    );
    let ghost whole = spec_collect_skip_fields_without_block_start(
        frame@,
        frame_type,
        num_blocks as nat,
        channel_mode,
        fullband_channels as nat,
        lfe_on,
        audio_frame@,
        audio_payload_end_bit as int,
        sample_rate_index,
    );
    let mut state = BlockSyntaxState::new(fullband_channels, lfe_on, sample_rate_index);
    let mut skip_fields: Vec<SkipFieldInfo> = Vec::new();
    assert(skip_fields_view(skip_fields@) =~= Seq::empty());
    let mut block: usize = 0;
    while block < num_blocks
        invariant
            whole == match total {
                Err(e) => Err(e),
                Ok((fields, c1)) => if c1.pos > audio_payload_end_bit as int {
                    Err(ParseError::InvalidHeader("block-end"))
                } else {
                    Ok(fields)
                },
            },
            whole == spec_collect_skip_fields_without_block_start(
                frame@,
                frame_type,
                num_blocks as nat,
                channel_mode,
                fullband_channels as nat,
                lfe_on,
                audio_frame@,
                audio_payload_end_bit as int,
                sample_rate_index,
            ),
            reader.wf(),
            frame_covers_blocks(audio_frame@, num_blocks as nat, fullband_channels as nat),
            block <= num_blocks,
            skip_fields@.len() <= block,
            forall|i: int| 0 <= i < skip_fields@.len() ==> (#[trigger] skip_fields@[i]).bytes@.len() < 512,
            state@.wf(fullband_channels as nat),
            total == spec_walk_blocks(
                reader@,
                state@,
                block as int,
                num_blocks as nat,
                frame_type,
                channel_mode,
                fullband_channels as nat,
                lfe_on,
                audio_frame@,
                skip_fields_view(skip_fields@),
            ),
        decreases num_blocks - block,
    {
        assert(frame_covers_block(audio_frame@, block as int, fullband_channels as nat));
        let ghost before = skip_fields_view(skip_fields@);
        let found = state.parse_block(
            &mut reader,
            block,
            frame_type,
            channel_mode,
            fullband_channels,
            lfe_on,
            audio_frame,
            true,
        )?;
        match found {
            Some(field) => {
                let ghost fv = field@;
                skip_fields.push(field);
                assert(skip_fields_view(skip_fields@) =~= before.push(fv));
            },
            None => {},
        }
        block += 1;
    }
    if reader.position() > audio_payload_end_bit {
        return Err(ParseError::InvalidHeader("block-end"));
    }
    Ok(skip_fields)
}

} // verus!
