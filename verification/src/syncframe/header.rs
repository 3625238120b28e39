//! Bitstream information (`bsi`) of an E-AC-3 syncframe.

use crate::bitreader::{BitCursor, BitReader};
use crate::syncframe::types::{
    rd, repeat_cond_skip, rflag, rskip, scond_skip, sflag,
    skip_conditional_bits, sread, sskip, then_cond_skip, then_skip, FrameType, ParseError,
};
use vstd::arithmetic::power2::{lemma2_to64, pow2};
use vstd::prelude::*;

verus! {

/// Audio blocks per syncframe for each `numblkscod`.
pub open spec fn spec_eac3_blocks(code: nat) -> u8 {
    if code == 0 {
        1
    } else if code == 1 {
        2
    } else if code == 2 {
        3
    } else {
        6
    }
}

/// Sample rate in Hz for each `fscod` below 3.
pub open spec fn spec_ac3_sample_rate(code: nat) -> u32 {
    if code == 0 {
        48_000
    } else if code == 1 {
        44_100
    } else {
        32_000
    }
}

/// Full-bandwidth channel count for each `acmod`.
pub open spec fn spec_ac3_channels(acmod: nat) -> u8 {
    if acmod == 0 {
        2
    } else if acmod == 1 {
        1
    } else if acmod == 2 {
        2
    } else if acmod == 3 || acmod == 4 {
        3
    } else if acmod == 5 || acmod == 6 {
        4
    } else {
        5
    }
}

/// Front channels of audio coding mode `acmod`: the two independent channels of dual mono
/// (mode 0), the centre alone (mode 1), else left and right, with the centre in the odd modes.
pub open spec fn spec_front_channels(acmod: nat) -> nat {
    if acmod == 0 {
        2
    } else if acmod == 1 {
        1
    } else {
        2 + acmod % 2
    }
}

/// Surround channels of audio coding mode `acmod`: none up to 3/0, one for 2/1 and 3/1 (modes
/// 4 and 5), two for 2/2 and 3/2 (modes 6 and 7).
pub open spec fn spec_surround_channels(acmod: nat) -> nat {
    if acmod < 4 {
        0
    } else if acmod < 6 {
        1
    } else {
        2
    }
}

/// The full-bandwidth channels of every audio coding mode are its front channels and its
/// surround channels: e.g. 2/0 stereo has two, 3/2 has five.
pub proof fn lemma_ac3_channels_are_front_plus_surround(acmod: nat)
    requires
        acmod < 8,
    ensures
        spec_ac3_channels(acmod) == spec_front_channels(acmod) + spec_surround_channels(acmod),
        1 <= spec_ac3_channels(acmod) <= 5,
{
}

/// Bit-allocation table index of a sample rate (half rates share the index of their base rate).
pub open spec fn spec_sample_rate_index(sample_rate: u32) -> Option<usize> {
    if sample_rate == 48_000 || sample_rate == 24_000 {
        Some(0)
    } else if sample_rate == 44_100 || sample_rate == 22_050 {
        Some(1)
    } else if sample_rate == 32_000 || sample_rate == 16_000 {
        Some(2)
    } else {
        None
    }
}

pub fn eac3_blocks(code: u32) -> (b: u8)
    ensures
        b == spec_eac3_blocks(code as nat),
{
    match code {
        0 => 1,
        1 => 2,
        2 => 3,
        _ => 6,
    }
}

pub fn ac3_sample_rate(code: u32) -> (s: u32)
    ensures
        s == spec_ac3_sample_rate(code as nat),
{
    match code {
        0 => 48_000,
        1 => 44_100,
        _ => 32_000,
    }
}

pub fn ac3_channels(acmod: u8) -> (c: u8)
    ensures
        c == spec_ac3_channels(acmod as nat),
{
    match acmod {
        0 => 2,
        1 => 1,
        2 => 2,
        3 | 4 => 3,
        5 | 6 => 4,
        _ => 5,
    }
}

/// Bit-allocation table index of a sample rate.
pub fn sample_rate_index(sample_rate: u32) -> (i: Option<usize>)
    ensures
        i == spec_sample_rate_index(sample_rate),
{
    if sample_rate == 48_000 || sample_rate == 24_000 {
        Some(0)
    } else if sample_rate == 44_100 || sample_rate == 22_050 {
        Some(1)
    } else if sample_rate == 32_000 || sample_rate == 16_000 {
        Some(2)
    } else {
        None
    }
}

/// `mixdata` length field: nothing, 5 bits, 12 bits, or a counted byte run.
pub open spec fn spec_mixdata(c: BitCursor) -> Result<BitCursor, ParseError> {
    match sread(c, 2) {
        Err(e) => Err(e),
        Ok((code, c1)) => if code == 1 {
            sskip(c1, 5)
        } else if code == 2 {
            sskip(c1, 12)
        } else if code == 3 {
            match sread(c1, 5) {
                Err(e) => Err(e),
                Ok((len, c2)) => sskip(c2, ((len + 2) * 8) as int),
            }
        } else {
            Ok(c1)
        },
    }
}

pub open spec fn then_mixdata(r: Result<BitCursor, ParseError>) -> Result<BitCursor, ParseError> {
    match r {
        Ok(c) => spec_mixdata(c),
        Err(e) => Err(e),
    }
}

/// Per-block mixing data: one 5-bit field for a single block, otherwise one flagged field each.
pub open spec fn then_block_mixing(r: Result<BitCursor, ParseError>, num_blocks: nat) -> Result<
    BitCursor,
    ParseError,
> {
    match r {
        Err(e) => Err(e),
        Ok(c) => match sflag(c) {
            Err(e) => Err(e),
            Ok((f, c1)) => if !f {
                Ok(c1)
            } else if num_blocks == 1 {
                sskip(c1, 5)
            } else {
                repeat_cond_skip(Ok(c1), num_blocks, 5)
            },
        },
    }
}

/// Mixing metadata fields that only independent frames carry.
pub open spec fn then_mix_independent(
    r: Result<BitCursor, ParseError>,
    channel_mode: u8,
    num_blocks: nat,
    volume_programs: nat,
) -> Result<BitCursor, ParseError> {
    let r = repeat_cond_skip(r, volume_programs, 6);
    let r = then_cond_skip(r, 6);
    let r = then_mixdata(r);
    let r = if channel_mode < 2 {
        let r = then_cond_skip(r, 14);
        if channel_mode == 0 {
            then_cond_skip(r, 14)
        } else {
            r
        }
    } else {
        r
    };
    then_block_mixing(r, num_blocks)
}

/// Mixing-level fields that depend on the channel mode and the LFE channel.
pub open spec fn then_mix_channels(r: Result<BitCursor, ParseError>, channel_mode: u8, lfe_on: bool) -> Result<
    BitCursor,
    ParseError,
> {
    let r = if channel_mode > 2 {
        then_skip(r, 2)
    } else {
        r
    };
    let r = if (channel_mode & 1) != 0 && channel_mode > 2 {
        then_skip(r, 6)
    } else {
        r
    };
    let r = if (channel_mode & 4) != 0 {
        then_skip(r, 6)
    } else {
        r
    };
    if lfe_on {
        then_cond_skip(r, 5)
    } else {
        r
    }
}

/// Mixing metadata (`mixmdate` and what it guards); the flag tells whether it is present.
pub open spec fn spec_mixing_metadata(
    c: BitCursor,
    frame_type: FrameType,
    channel_mode: u8,
    lfe_on: bool,
    num_blocks: nat,
    volume_programs: nat,
) -> Result<(bool, BitCursor), ParseError> {
    match sflag(c) {
        Err(e) => Err(e),
        Ok((enabled, c1)) => if !enabled {
            Ok((false, c1))
        } else {
            let r = then_mix_channels(Ok(c1), channel_mode, lfe_on);
            let r = if frame_type == FrameType::Independent {
                then_mix_independent(r, channel_mode, num_blocks, volume_programs)
            } else {
                r
            };
            match r {
                Ok(c2) => Ok((true, c2)),
                Err(e) => Err(e),
            }
        },
    }
}

/// Skips `count` fields, each a flag followed by `n` bits when set.
fn skip_repeated_conditional(r: &mut BitReader, count: usize, n: usize) -> (res: Result<
    (),
    ParseError,
>)
    requires
        old(r).wf(),
    ensures
        final(r).wf(),
        match repeat_cond_skip(Ok(old(r)@), count as nat, n as int) {
            Ok(c) => res is Ok && final(r)@ == c,
            Err(e) => res == Err::<(), ParseError>(e),
        },
{
    let ghost start = r@;
    let mut k: usize = 0;
    while k < count
        invariant
            r.wf(),
            start == old(r)@,
            k <= count,
            repeat_cond_skip(Ok(start), count as nat, n as int) == repeat_cond_skip(
                Ok(r@),
                (count - k) as nat,
                n as int,
            ),
        decreases count - k,
    {
        let ghost before = r@;
        assert(repeat_cond_skip(Ok(before), (count - k) as nat, n as int) == repeat_cond_skip(
            scond_skip(before, n as int),
            (count - k - 1) as nat,
            n as int,
        ));
        let res = skip_conditional_bits(r, n);
        match res {
            Ok(()) => {},
            Err(e) => {
                return Err(e);
            },
        }
        k = k + 1;
    }
    Ok(())
}

fn skip_mixdata(r: &mut BitReader) -> (res: Result<(), ParseError>)
    requires
        old(r).wf(),
    ensures
        final(r).wf(),
        match spec_mixdata(old(r)@) {
            Ok(c) => res is Ok && final(r)@ == c,
            Err(e) => res == Err::<(), ParseError>(e),
        },
{
    proof {
        lemma2_to64();
    }
    let code = rd(r, 2)?;
    match code {
        1 => rskip(r, 5)?,
        2 => rskip(r, 12)?,
        3 => {
            let len = rd(r, 5)?;
            proof {
                lemma2_to64();
            }
            rskip(r, (len as usize + 2) * 8)?;
        },
        _ => {},
    }
    Ok(())
}

fn skip_block_mixing(r: &mut BitReader, num_blocks: usize) -> (res: Result<(), ParseError>)
    requires
        old(r).wf(),
    ensures
        final(r).wf(),
        match then_block_mixing(Ok(old(r)@), num_blocks as nat) {
            Ok(c) => res is Ok && final(r)@ == c,
            Err(e) => res == Err::<(), ParseError>(e),
        },
{
    if rflag(r)? {
        if num_blocks == 1 {
            rskip(r, 5)?;
        } else {
            skip_repeated_conditional(r, num_blocks, 5)?;
        }
    }
    Ok(())
}

fn skip_mix_independent(r: &mut BitReader, channel_mode: u8, num_blocks: usize, volume_programs: usize) -> (res: Result<(), ParseError>)
    requires
        old(r).wf(),
    ensures
        final(r).wf(),
        match then_mix_independent(
            Ok(old(r)@),
            channel_mode,
            num_blocks as nat,
            volume_programs as nat,
        ) {
            Ok(c) => res is Ok && final(r)@ == c,
            Err(e) => res == Err::<(), ParseError>(e),
        },
{
    skip_repeated_conditional(r, volume_programs, 6)?;
    skip_conditional_bits(r, 6)?;
    skip_mixdata(r)?;
    if channel_mode < 2 {
        skip_conditional_bits(r, 14)?;
        if channel_mode == 0 {
            skip_conditional_bits(r, 14)?;
        }
    }
    skip_block_mixing(r, num_blocks)?;
    Ok(())
}

/// Walks the mixing metadata; `Ok(true)` when the `mixmdate` flag was set.
pub fn read_mixing_metadata(
    r: &mut BitReader,
    frame_type: FrameType,
    channel_mode: u8,
    lfe_on: bool,
    num_blocks: usize,
    volume_programs: usize,
) -> (res: Result<bool, ParseError>)
    requires
        old(r).wf(),
    ensures
        final(r).wf(),
        match spec_mixing_metadata(
            old(r)@,
            frame_type,
            channel_mode,
            lfe_on,
            num_blocks as nat,
            volume_programs as nat,
        ) {
            Ok((v, c)) => res == Ok::<bool, ParseError>(v) && final(r)@ == c,
            Err(e) => res == Err::<bool, ParseError>(e),
        },
{
    let enabled = rflag(r)?;
    if !enabled {
        return Ok(false);
    }
    skip_mix_channels(r, channel_mode, lfe_on)?;
    if matches!(frame_type, FrameType::Independent) {
        skip_mix_independent(r, channel_mode, num_blocks, volume_programs)?;
    }
    Ok(true)
}

fn skip_mix_channels(r: &mut BitReader, channel_mode: u8, lfe_on: bool) -> (res: Result<(), ParseError>)
    requires
        old(r).wf(),
    ensures
        final(r).wf(),
        match then_mix_channels(Ok(old(r)@), channel_mode, lfe_on) {
            Ok(c) => res is Ok && final(r)@ == c,
            Err(e) => res == Err::<(), ParseError>(e),
        },
{
    if channel_mode > 2 {
        rskip(r, 2)?;
    }
    if (channel_mode & 1) != 0 && channel_mode > 2 {
        rskip(r, 6)?;
    }
    if (channel_mode & 0x4) != 0 {
        rskip(r, 6)?;
    }
    if lfe_on {
        skip_conditional_bits(r, 5)?;
    }
    Ok(())
}

/// Informational metadata (`infomdate` and what it guards).
pub open spec fn spec_informational_metadata(
    c: BitCursor,
    channel_mode: u8,
    sample_rate: u32,
    volume_programs: nat,
) -> Result<(bool, BitCursor), ParseError> {
    match sflag(c) {
        Err(e) => Err(e),
        Ok((enabled, c1)) => if !enabled {
            Ok((false, c1))
        } else {
            let r = then_skip(Ok(c1), 3);
            let r = then_skip(r, 2);
            let r = if channel_mode == 2 {
                then_skip(r, 4)
            } else if channel_mode >= 6 {
                then_skip(r, 2)
            } else {
                r
            };
            let r = repeat_cond_skip(r, volume_programs, 8);
            let r = if 32_000 <= sample_rate <= 48_000 {
                then_skip(r, 1)
            } else {
                r
            };
            match r {
                Ok(c2) => Ok((true, c2)),
                Err(e) => Err(e),
            }
        },
    }
}

/// Walks the informational metadata; `Ok(true)` when the `infomdate` flag was set.
pub fn read_informational_metadata(
    r: &mut BitReader,
    channel_mode: u8,
    sample_rate: u32,
    volume_programs: usize,
) -> (res: Result<bool, ParseError>)
    requires
        old(r).wf(),
    ensures
        final(r).wf(),
        match spec_informational_metadata(
            old(r)@,
            channel_mode,
            sample_rate,
            volume_programs as nat,
        ) {
            Ok((v, c)) => res == Ok::<bool, ParseError>(v) && final(r)@ == c,
            Err(e) => res == Err::<bool, ParseError>(e),
        },
{
    let enabled = rflag(r)?;
    if !enabled {
        return Ok(false);
    }
    rskip(r, 3)?;
    rskip(r, 2)?;
    if channel_mode == 2 {
        rskip(r, 4)?;
    } else if channel_mode >= 6 {
        rskip(r, 2)?;
    }
    skip_repeated_conditional(r, volume_programs, 8)?;
    if 32_000 <= sample_rate && sample_rate <= 48_000 {
        rskip(r, 1)?;
    }
    Ok(true)
}

} // verus!
