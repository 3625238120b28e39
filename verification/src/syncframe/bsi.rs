//! Frame size detection and the bitstream information that precedes the audio frame.

use crate::bitreader::{bit_at, bits_value, lemma_bits_value_bound, BitCursor, BitReader, MAX_READER_BYTES};
use crate::syncframe::header::{
    ac3_channels, ac3_sample_rate, eac3_blocks, read_informational_metadata,
    lemma_ac3_channels_are_front_plus_surround, read_mixing_metadata, sample_rate_index,
    spec_ac3_channels, spec_ac3_sample_rate, spec_front_channels, spec_surround_channels,
    spec_eac3_blocks, spec_informational_metadata, spec_mixing_metadata, spec_sample_rate_index,
};
use crate::syncframe::types::{
    rd, rflag, rskip, scond_skip, sflag, skip_conditional_bits, sread, sskip, FrameType,
    ParseError,
};
use vstd::arithmetic::power2::lemma2_to64;
use vstd::prelude::*;
use vstd::slice::slice_subrange;

verus! {

/// Largest E-AC-3 frame size in bytes (`frmsiz` is 11 bits, counted in 16-bit words).
pub const MAX_FRAME_BYTES: usize = 4096;

/// The syncword and the frame size announced by the first bytes of an access unit.
pub open spec fn spec_frame_size(data: Seq<u8>) -> Result<usize, ParseError> {
    if data.len() < 7 {
        Err(ParseError::ShortPacket)
    } else if bits_value(data, 0, 16) != 0x0B77 {
        Err(ParseError::BadSyncword)
    } else if bits_value(data, 40, 5) <= 10 {
        Err(ParseError::NotEac3)
    } else if bits_value(data, 40, 5) > 16 {
        Err(ParseError::InvalidHeader("bsid"))
    } else {
        Ok(((bits_value(data, 21, 11) + 1) * 2) as usize)
    }
}

/// The bit stream identifier of a packet that passed [`spec_frame_size`].
pub open spec fn spec_bitstream_id(data: Seq<u8>) -> u8 {
    bits_value(data, 40, 5) as u8
}

/// Bits below bit `56` are the same in a packet and in its first seven bytes.
proof fn lemma_prefix_bits(data: Seq<u8>, prefix: Seq<u8>, start: int, n: nat)
    requires
        prefix.len() == 7,
        data.len() >= 7,
        prefix == data.subrange(0, 7),
        0 <= start,
        start + n <= 56,
    ensures
        bits_value(prefix, start, n) == bits_value(data, start, n),
    decreases n,
{
    if n > 0 {
        lemma_prefix_bits(data, prefix, start, (n - 1) as nat);
        let i = start + n - 1;
        assert(prefix[i / 8] == data[i / 8]);
        assert(bit_at(prefix, i) == bit_at(data, i));
    }
}

/// Checks the syncword and bitstream id of a packet and returns the frame size and the bsid.
pub fn read_frame_size(data: &[u8]) -> (res: Result<(usize, u8), ParseError>)
    ensures
        match spec_frame_size(data@) {
            Ok(size) => res == Ok::<(usize, u8), ParseError>((size, spec_bitstream_id(data@))),
            Err(e) => res == Err::<(usize, u8), ParseError>(e),
        },
        res matches Ok((size, _)) ==> 2 <= size <= MAX_FRAME_BYTES && size % 2 == 0,
{
    if data.len() < 7 {
        return Err(ParseError::ShortPacket);
    }
    let prefix = slice_subrange(data, 0, 7);
    proof {
        lemma_prefix_bits(data@, prefix@, 0, 16);
        lemma_prefix_bits(data@, prefix@, 40, 5);
        lemma_prefix_bits(data@, prefix@, 21, 11);
        crate::bitreader::lemma_bits_value_bound(data@, 40, 5);
        crate::bitreader::lemma_bits_value_bound(data@, 21, 11);
        crate::bitreader::lemma_bits_value_bound(data@, 0, 16);
        lemma2_to64();
    }
    let mut reader = BitReader::new(prefix);
    let sync = match reader.read_bits(16) {
        Some(v) => v,
        None => return Err(ParseError::ShortPacket),
    };
    if sync != 0x0B77 {
        return Err(ParseError::BadSyncword);
    }
    let mut id_reader = BitReader::with_offset(prefix, 40);
    let bitstream_id = match id_reader.read_bits(5) {
        Some(v) => v as u8,
        None => return Err(ParseError::ShortPacket),
    };
    if bitstream_id <= 10 {
        return Err(ParseError::NotEac3);
    }
    if bitstream_id > 16 {
        return Err(ParseError::InvalidHeader("bsid"));
    }
    let mut size_reader = BitReader::with_offset(prefix, 21);
    let frmsiz = match size_reader.read_bits(11) {
        Some(v) => v as usize,
        None => return Err(ParseError::ShortPacket),
    };
    Ok(((frmsiz + 1) * 2, bitstream_id))
}

/// Fields of the bitstream information that later parsing depends on.
#[derive(Debug, Clone, Copy, PartialEq, Eq)]
pub struct BsiCore {
    pub frame_type: FrameType,
    pub substreamid: u8,
    pub sample_rate: u32,
    pub num_blocks: u8,
    pub sample_rate_index: usize,
    pub channel_mode: u8,
    pub lfe_on: bool,
    pub fullband_channels: u8,
    pub channels: u8,
}

/// Frame type for each `strmtyp` below 3.
pub open spec fn spec_frame_type(code: nat) -> FrameType {
    if code == 0 {
        FrameType::Independent
    } else if code == 1 {
        FrameType::Dependent
    } else {
        FrameType::Ac3Convert
    }
}

/// Sample rate and block count (`fscod`, then `fscod2` or `numblkscod`).
pub open spec fn spec_rate_blocks(c: BitCursor) -> Result<(u32, u8, BitCursor), ParseError> {
    match sread(c, 2) {
        Err(e) => Err(e),
        Ok((sr_code, c1)) => if sr_code == 3 {
            match sread(c1, 2) {
                Err(e) => Err(e),
                Ok((sr_code2, c2)) => if sr_code2 == 3 {
                    Err(ParseError::InvalidHeader("sample-rate"))
                } else {
                    Ok(((spec_ac3_sample_rate(sr_code2) / 2) as u32, 6u8, c2))
                },
            }
        } else {
            match sread(c1, 2) {
                Err(e) => Err(e),
                Ok((blocks_code, c2)) => Ok(
                    (spec_ac3_sample_rate(sr_code), spec_eac3_blocks(blocks_code), c2),
                ),
            }
        },
    }
}

/// Channel mode and LFE flag, combined with the earlier fields into a [`BsiCore`].
pub open spec fn spec_channels(
    c: BitCursor,
    frame_type: FrameType,
    substreamid: u8,
    sample_rate: u32,
    num_blocks: u8,
) -> Result<(BsiCore, BitCursor), ParseError> {
    match spec_sample_rate_index(sample_rate) {
        None => Err(ParseError::InvalidHeader("sample-rate")),
        Some(sri) => match sread(c, 3) {
            Err(e) => Err(e),
            Ok((acmod, c1)) => match sflag(c1) {
                Err(e) => Err(e),
                Ok((lfe_on, c2)) => {
                    let fbw = spec_ac3_channels(acmod);
                    Ok(
                        (
                            BsiCore {
                                frame_type,
                                substreamid,
                                sample_rate,
                                num_blocks,
                                sample_rate_index: sri,
                                channel_mode: acmod as u8,
                                lfe_on,
                                fullband_channels: fbw,
                                channels: (fbw + if lfe_on {
                                    1int
                                } else {
                                    0int
                                }) as u8,
                            },
                            c2,
                        ),
                    )
                },
            },
        },
    }
}

/// A parsed header's channel counts come from its coding mode: the mode is below 8, the
/// full-bandwidth channels are its front plus surround channels, and the LFE channel, when on,
/// adds one more.
pub proof fn lemma_bsi_core_channels(c: BitCursor)
    requires
        spec_bsi_core(c) is Ok,
    ensures
        ({
            let core = spec_bsi_core(c)->Ok_0.0;
            &&& core.channel_mode < 8
            &&& core.fullband_channels as nat == spec_front_channels(core.channel_mode as nat)
                + spec_surround_channels(core.channel_mode as nat)
            &&& core.channels as nat == core.fullband_channels as nat + if core.lfe_on {
                1nat
            } else {
                0nat
            }
        }),
{
    let c1 = c.advance(16);
    let c2 = c1.advance(2);
    let c3 = c2.advance(3);
    let c4 = c3.advance(11);
    let (rate, blocks, c5) = spec_rate_blocks(c4)->Ok_0;
    lemma_bits_value_bound(c5.data, c5.pos, 3);
    lemma2_to64();
    let acmod = bits_value(c5.data, c5.pos, 3);
    lemma_ac3_channels_are_front_plus_surround(acmod);
}

/// Syncword, stream type, substream id, frame size, sample rate, blocks and channel layout.
pub open spec fn spec_bsi_core(c: BitCursor) -> Result<(BsiCore, BitCursor), ParseError> {
    match sread(c, 16) {
        Err(e) => Err(e),
        Ok((sync, c1)) => if sync != 0x0B77 {
            Err(ParseError::BadSyncword)
        } else {
            match sread(c1, 2) {
                Err(e) => Err(e),
                Ok((ft, c2)) => if ft == 3 {
                    Err(ParseError::InvalidHeader("frame-type"))
                } else {
                    match sread(c2, 3) {
                        Err(e) => Err(e),
                        Ok((ssid, c3)) => match sskip(c3, 11) {
                            Err(e) => Err(e),
                            Ok(c4) => match spec_rate_blocks(c4) {
                                Err(e) => Err(e),
                                Ok((rate, blocks, c5)) => spec_channels(
                                    c5,
                                    spec_frame_type(ft),
                                    ssid as u8,
                                    rate,
                                    blocks,
                                ),
                            },
                        },
                    }
                },
            }
        },
    }
}

fn read_rate_blocks(r: &mut BitReader) -> (res: Result<(u32, u8), ParseError>)
    requires
        old(r).wf(),
    ensures
        final(r).wf(),
        match spec_rate_blocks(old(r)@) {
            Ok((rate, blocks, c)) => res == Ok::<(u32, u8), ParseError>((rate, blocks))
                && final(r)@ == c,
            Err(e) => res == Err::<(u32, u8), ParseError>(e),
        },
{
    proof {
        lemma2_to64();
    }
    let sr_code = rd(r, 2)?;
    if sr_code == 3 {
        let sr_code2 = rd(r, 2)?;
        if sr_code2 == 3 {
            return Err(ParseError::InvalidHeader("sample-rate"));
        }
        Ok((ac3_sample_rate(sr_code2) / 2, 6))
    } else {
        let blocks_code = rd(r, 2)?;
        Ok((ac3_sample_rate(sr_code), eac3_blocks(blocks_code)))
    }
}

/// Reads the start of the bitstream information up to the LFE flag.
pub fn read_bsi_core(r: &mut BitReader) -> (res: Result<BsiCore, ParseError>)
    requires
        old(r).wf(),
    ensures
        final(r).wf(),
        match spec_bsi_core(old(r)@) {
            Ok((core, c)) => res == Ok::<BsiCore, ParseError>(core) && final(r)@ == c,
            Err(e) => res == Err::<BsiCore, ParseError>(e),
        },
        res matches Ok(core) ==> core.num_blocks == 1 || core.num_blocks == 2
            || core.num_blocks == 3 || core.num_blocks == 6,
        res matches Ok(core) ==> core.channel_mode < 8 && 1 <= core.fullband_channels <= 5
            && core.sample_rate_index < 3,
{
    proof {
        lemma2_to64();
    }
    let sync = rd(r, 16)?;
    if sync != 0x0B77 {
        return Err(ParseError::BadSyncword);
    }
    let ft = rd(r, 2)?;
    let frame_type = match ft {
        0 => FrameType::Independent,
        1 => FrameType::Dependent,
        2 => FrameType::Ac3Convert,
        _ => return Err(ParseError::InvalidHeader("frame-type")),
    };
    let substreamid = rd(r, 3)? as u8;
    rskip(r, 11)?;
    let (sample_rate, num_blocks) = read_rate_blocks(r)?;
    let sri = match sample_rate_index(sample_rate) {
        Some(i) => i,
        None => return Err(ParseError::InvalidHeader("sample-rate")),
    };
    let channel_mode = rd(r, 3)? as u8;
    let lfe_on = rflag(r)?;
    let fullband_channels = ac3_channels(channel_mode);
    let channels = fullband_channels + if lfe_on {
        1u8
    } else {
        0u8
    };
    Ok(
        BsiCore {
            frame_type,
            substreamid,
            sample_rate,
            num_blocks,
            sample_rate_index: sri,
            channel_mode,
            lfe_on,
            fullband_channels,
            channels,
        },
    )
}

/// Number of dialogue-normalisation programs (two for dual mono).
pub open spec fn spec_volume_programs(channel_mode: u8) -> nat {
    if channel_mode == 0 {
        2
    } else {
        1
    }
}

/// `count` programs of `dialnorm` (5 bits) and an optional `compr` byte.
pub open spec fn spec_dialnorm_programs(r: Result<BitCursor, ParseError>, count: nat) -> Result<
    BitCursor,
    ParseError,
>
    decreases count,
{
    match r {
        Err(e) => Err(e),
        Ok(c) => if count == 0 {
            Ok(c)
        } else {
            let r1 = match sskip(c, 5) {
                Err(e) => Err(e),
                Ok(c1) => scond_skip(c1, 8),
            };
            spec_dialnorm_programs(r1, (count - 1) as nat)
        },
    }
}

/// Fields between the LFE flag and the metadata blocks: `bsid`, the dialogue-normalisation
/// programs and, in dependent frames, the optional channel map.
pub open spec fn spec_bsi_levels(c: BitCursor, core: BsiCore) -> Result<BitCursor, ParseError> {
    let r = match sskip(c, 5) {
        Err(e) => Err(e),
        Ok(c1) => spec_dialnorm_programs(Ok(c1), spec_volume_programs(core.channel_mode)),
    };
    match r {
        Err(e) => Err(e),
        Ok(c2) => if core.frame_type == FrameType::Dependent {
            scond_skip(c2, 16)
        } else {
            Ok(c2)
        },
    }
}

fn skip_bsi_levels(r: &mut BitReader, core: &BsiCore) -> (res: Result<(), ParseError>)
    requires
        old(r).wf(),
    ensures
        final(r).wf(),
        match spec_bsi_levels(old(r)@, *core) {
            Ok(c) => res is Ok && final(r)@ == c,
            Err(e) => res == Err::<(), ParseError>(e),
        },
{
    rskip(r, 5)?;
    let volume_programs: usize = if core.channel_mode == 0 {
        2
    } else {
        1
    };
    let ghost start = r@;
    let mut k: usize = 0;
    while k < volume_programs
        invariant
            r.wf(),
            k <= volume_programs,
            sskip(old(r)@, 5) == Ok::<BitCursor, ParseError>(start),
            volume_programs as nat == spec_volume_programs(core.channel_mode),
            spec_dialnorm_programs(Ok(start), volume_programs as nat) == spec_dialnorm_programs(
                Ok(r@),
                (volume_programs - k) as nat,
            ),
        decreases volume_programs - k,
    {
        let ghost before = r@;
        assert(spec_dialnorm_programs(Ok(before), (volume_programs - k) as nat)
            == spec_dialnorm_programs(
            match sskip(before, 5) {
                Err(e) => Err(e),
                Ok(c1) => scond_skip(c1, 8),
            },
            (volume_programs - k - 1) as nat,
        ));
        rskip(r, 5)?;
        skip_conditional_bits(r, 8)?;
        k = k + 1;
    }
    if matches!(core.frame_type, FrameType::Dependent) {
        skip_conditional_bits(r, 16)?;
    }
    Ok(())
}

/// Mathematical view of [`Bsi`].
pub struct BsiModel {
    pub core: BsiCore,
    pub mixing_metadata_present: bool,
    pub informational_metadata_present: bool,
    pub addbsi_present: bool,
    pub addbsi_bytes: Seq<u8>,
}

/// The complete bitstream information of a syncframe.
#[derive(Debug, Clone, PartialEq, Eq)]
pub struct Bsi {
    pub core: BsiCore,
    pub mixing_metadata_present: bool,
    pub informational_metadata_present: bool,
    pub addbsi_present: bool,
    pub addbsi_bytes: Vec<u8>,
}

impl View for Bsi {
    type V = BsiModel;

    open spec fn view(&self) -> BsiModel {
        BsiModel {
            core: self.core,
            mixing_metadata_present: self.mixing_metadata_present,
            informational_metadata_present: self.informational_metadata_present,
            addbsi_present: self.addbsi_present,
            addbsi_bytes: self.addbsi_bytes@,
        }
    }
}

/// Conversion-sync and block-id fields between the metadata and `addbsi`.
pub open spec fn spec_bsi_tail(c: BitCursor, core: BsiCore) -> Result<BitCursor, ParseError> {
    let r = if core.frame_type == FrameType::Independent && core.num_blocks != 6 {
        sskip(c, 1)
    } else {
        Ok(c)
    };
    match r {
        Err(e) => Err(e),
        Ok(c1) => if core.frame_type == FrameType::Ac3Convert {
            if core.num_blocks == 6 {
                sskip(c1, 6)
            } else {
                scond_skip(c1, 6)
            }
        } else {
            Ok(c1)
        },
    }
}

/// Additional bitstream information: a flag, then a length and that many bytes.
pub open spec fn spec_addbsi(c: BitCursor) -> Result<(bool, Seq<u8>, BitCursor), ParseError> {
    match sflag(c) {
        Err(e) => Err(e),
        Ok((present, c1)) => if !present {
            Ok((false, Seq::empty(), c1))
        } else {
            match sread(c1, 6) {
                Err(e) => Err(e),
                Ok((len, c2)) => match c2.read_bytes(len + 1) {
                    None => Err(ParseError::ShortPacket),
                    Some((bytes, c3)) => Ok((true, bytes, c3)),
                },
            }
        },
    }
}

/// The bitstream information (`bsi`) of a syncframe.
#[verifier::opaque]
pub open spec fn spec_bsi(c: BitCursor) -> Result<(BsiModel, BitCursor), ParseError> {
    match spec_bsi_core(c) {
        Err(e) => Err(e),
        Ok((core, c1)) => match spec_bsi_levels(c1, core) {
            Err(e) => Err(e),
            Ok(c2) => match spec_mixing_metadata(
                c2,
                core.frame_type,
                core.channel_mode,
                core.lfe_on,
                core.num_blocks as nat,
                spec_volume_programs(core.channel_mode),
            ) {
                Err(e) => Err(e),
                Ok((mixing, c3)) => match spec_informational_metadata(
                    c3,
                    core.channel_mode,
                    core.sample_rate,
                    spec_volume_programs(core.channel_mode),
                ) {
                    Err(e) => Err(e),
                    Ok((informational, c4)) => match spec_bsi_tail(c4, core) {
                        Err(e) => Err(e),
                        Ok(c5) => match spec_addbsi(c5) {
                            Err(e) => Err(e),
                            Ok((addbsi_present, addbsi_bytes, c6)) => Ok(
                                (
                                    BsiModel {
                                        core,
                                        mixing_metadata_present: mixing,
                                        informational_metadata_present: informational,
                                        addbsi_present,
                                        addbsi_bytes,
                                    },
                                    c6,
                                ),
                            ),
                        },
                    },
                },
            },
        },
    }
}

fn skip_bsi_tail(r: &mut BitReader, core: &BsiCore) -> (res: Result<(), ParseError>)
    requires
        old(r).wf(),
    ensures
        final(r).wf(),
        match spec_bsi_tail(old(r)@, *core) {
            Ok(c) => res is Ok && final(r)@ == c,
            Err(e) => res == Err::<(), ParseError>(e),
        },
{
    if matches!(core.frame_type, FrameType::Independent) && core.num_blocks != 6 {
        rskip(r, 1)?;
    }
    if matches!(core.frame_type, FrameType::Ac3Convert) {
        let has_original_size = if core.num_blocks == 6 {
            true
        } else {
            rflag(r)?
        };
        if has_original_size {
            rskip(r, 6)?;
        }
    }
    Ok(())
}

fn read_addbsi(r: &mut BitReader) -> (res: Result<(bool, Vec<u8>), ParseError>)
    requires
        old(r).wf(),
    ensures
        final(r).wf(),
        match spec_addbsi(old(r)@) {
            Ok((p, bytes, c)) => res matches Ok((rp, rb)) && rp == p && rb@ == bytes && final(r)@
                == c,
            Err(e) => res matches Err(re) && re == e,
        },
{
    proof {
        lemma2_to64();
    }
    if !rflag(r)? {
        return Ok((false, Vec::new()));
    }
    let len = rd(r, 6)? as usize + 1;
    match r.read_bytes(len) {
        Some(bytes) => Ok((true, bytes)),
        None => Err(ParseError::ShortPacket),
    }
}

/// Reads the bitstream information of a syncframe.
pub fn read_bsi(r: &mut BitReader) -> (res: Result<Bsi, ParseError>)
    requires
        old(r).wf(),
    ensures
        final(r).wf(),
        match spec_bsi(old(r)@) {
            Ok((m, c)) => res matches Ok(b) && b@ == m && final(r)@ == c,
            Err(e) => res matches Err(re) && re == e,
        },
        res matches Ok(b) ==> (b.core.num_blocks == 1 || b.core.num_blocks == 2
            || b.core.num_blocks == 3 || b.core.num_blocks == 6) && b.core.channel_mode < 8 && 1
            <= b.core.fullband_channels <= 5 && b.core.sample_rate_index < 3,
{
    proof {
        reveal(spec_bsi);
    }
    let core = read_bsi_core(r)?;
    skip_bsi_levels(r, &core)?;
    let volume_programs: usize = if core.channel_mode == 0 {
        2
    } else {
        1
    };
    let mixing = read_mixing_metadata(
        r,
        core.frame_type,
        core.channel_mode,
        core.lfe_on,
        core.num_blocks as usize,
        volume_programs,
    )?;
    let informational = read_informational_metadata(
        r,
        core.channel_mode,
        core.sample_rate,
        volume_programs,
    )?;
    skip_bsi_tail(r, &core)?;
    let (addbsi_present, addbsi_bytes) = read_addbsi(r)?;
    Ok(
        Bsi {
            core,
            mixing_metadata_present: mixing,
            informational_metadata_present: informational,
            addbsi_present,
            addbsi_bytes,
        },
    )
}

} // verus!
