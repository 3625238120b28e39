//! Per-block syntax state of the audio-block walker, and the spectral-extension and coupling
//! strategy fields that update it.

use crate::bitreader::{BitCursor, BitReader};
use crate::syncframe::types::{rd, rflag, rskip, sflag, sread, sskip, ParseError};
use vstd::arithmetic::power2::{lemma2_to64, pow2};
use vstd::prelude::*;

verus! {

/// Number of coupling sub-bands whose band structure is tracked.
pub const CPL_BANDS: usize = 18;

/// Default coupling band structure: which sub-bands are merged into the band before them.
pub open spec fn spec_default_cpl_band_struct() -> Seq<bool> {
    seq![
        false, false, false, false, false, false, false, false, true, false, true, true, false,
        true, true, true, true, true,
    ]
}

/// Bit-allocation parameter codes (`sdcycod`, `fdcycod`, `sgaincod`, `dbpbcod`, `floorcod`).
#[derive(Debug, Clone, Copy, PartialEq, Eq, Structural)]
pub struct BitAllocationParams {
    pub slow_decay_code: u8,
    pub fast_decay_code: u8,
    pub slow_gain_code: u8,
    pub db_per_bit_code: u8,
    pub floor_code: u8,
}

/// The codes that apply when a frame does not transmit them.
pub open spec fn spec_default_bit_allocation_params() -> BitAllocationParams {
    BitAllocationParams {
        slow_decay_code: 2,
        fast_decay_code: 1,
        slow_gain_code: 1,
        db_per_bit_code: 2,
        floor_code: 7,
    }
}

impl BitAllocationParams {
    /// The codes that apply when a frame does not transmit them.
    pub fn default_codes() -> (p: Self)
        ensures
            p == spec_default_bit_allocation_params(),
    {
        BitAllocationParams {
            slow_decay_code: 2,
            fast_decay_code: 1,
            slow_gain_code: 1,
            db_per_bit_code: 2,
            floor_code: 7,
        }
    }
}

/// Delta bit-allocation mode of one channel (`deltbae`).
#[derive(Debug, Clone, Copy, PartialEq, Eq, Structural)]
pub enum DeltaBitAllocationMode {
    Reuse,
    NewInfoFollows,
    NoDelta,
}

/// Mode for the two-bit code `bits`; the code 3 is reserved.
pub open spec fn spec_delta_mode(bits: nat) -> Result<DeltaBitAllocationMode, ParseError> {
    if bits == 0 {
        Ok(DeltaBitAllocationMode::Reuse)
    } else if bits == 1 {
        Ok(DeltaBitAllocationMode::NewInfoFollows)
    } else if bits == 2 {
        Ok(DeltaBitAllocationMode::NoDelta)
    } else {
        Err(ParseError::InvalidHeader("deltbae"))
    }
}

impl DeltaBitAllocationMode {
    /// Mode for the two-bit code `bits`; the code 3 is reserved.
    pub fn from_bits(bits: u32) -> (r: Result<Self, ParseError>)
        ensures
            r == spec_delta_mode(bits as nat),
    {
        if bits == 0 {
            Ok(DeltaBitAllocationMode::Reuse)
        } else if bits == 1 {
            Ok(DeltaBitAllocationMode::NewInfoFollows)
        } else if bits == 2 {
            Ok(DeltaBitAllocationMode::NoDelta)
        } else {
            Err(ParseError::InvalidHeader("deltbae"))
        }
    }
}

/// One delta bit-allocation segment: band offset, length and allocation adjustment.
#[derive(Debug, Clone, Copy, PartialEq, Eq, Structural)]
pub struct DeltaSegment {
    pub offset: u8,
    pub length: u8,
    pub bit_allocation: u8,
}

/// Syntax state carried from one audio block to the next within a frame.
pub struct BlockSyntaxState {
    pub bit_allocation_params: BitAllocationParams,
    pub channel_delta_modes: Vec<DeltaBitAllocationMode>,
    pub channel_delta_segments: Vec<Vec<DeltaSegment>>,
    pub channel_fgain_codes: Vec<u8>,
    pub channel_fsnr_offsets: Vec<i32>,
    pub chbwcod: Vec<u8>,
    pub chincpl: Vec<bool>,
    pub chinspx: Vec<bool>,
    pub csnr_offset: i32,
    pub cplbegf: usize,
    pub cpl_band_struct: Vec<bool>,
    pub cplendf: usize,
    pub ecplinu: bool,
    pub first_cpl_coords: Vec<bool>,
    pub first_cpl_leak: bool,
    pub first_spx_coords: Vec<bool>,
    pub lfe_on: bool,
    pub lfe_fgain_code: u8,
    pub lfe_fsnr_offset: i32,
    pub ncplbnd: usize,
    pub ncplsubnd: usize,
    pub phsflginu: bool,
    pub sample_rate_index: usize,
    pub spxbegf: usize,
    pub spx_begin_subbnd: usize,
    pub spx_end_subbnd: usize,
    pub spx_in_use: bool,
    pub nspxbnds: usize,
}

/// Mathematical view of [`BlockSyntaxState`].
pub struct BlockModel {
    pub bit_allocation_params: BitAllocationParams,
    pub channel_delta_modes: Seq<DeltaBitAllocationMode>,
    pub channel_delta_segments: Seq<Seq<DeltaSegment>>,
    pub channel_fgain_codes: Seq<u8>,
    pub channel_fsnr_offsets: Seq<i32>,
    pub chbwcod: Seq<u8>,
    pub chincpl: Seq<bool>,
    pub chinspx: Seq<bool>,
    pub csnr_offset: i32,
    pub cplbegf: usize,
    pub cpl_band_struct: Seq<bool>,
    pub cplendf: usize,
    pub ecplinu: bool,
    pub first_cpl_coords: Seq<bool>,
    pub first_cpl_leak: bool,
    pub first_spx_coords: Seq<bool>,
    pub lfe_on: bool,
    pub lfe_fgain_code: u8,
    pub lfe_fsnr_offset: i32,
    pub ncplbnd: usize,
    pub ncplsubnd: usize,
    pub phsflginu: bool,
    pub sample_rate_index: usize,
    pub spxbegf: usize,
    pub spx_begin_subbnd: usize,
    pub spx_end_subbnd: usize,
    pub spx_in_use: bool,
    pub nspxbnds: usize,
}

impl View for BlockSyntaxState {
    type V = BlockModel;

    open spec fn view(&self) -> BlockModel {
        BlockModel {
            bit_allocation_params: self.bit_allocation_params,
            channel_delta_modes: self.channel_delta_modes@,
            channel_delta_segments: self.channel_delta_segments@.map_values(
                |v: Vec<DeltaSegment>| v@,
            ),
            channel_fgain_codes: self.channel_fgain_codes@,
            channel_fsnr_offsets: self.channel_fsnr_offsets@,
            chbwcod: self.chbwcod@,
            chincpl: self.chincpl@,
            chinspx: self.chinspx@,
            csnr_offset: self.csnr_offset,
            cplbegf: self.cplbegf,
            cpl_band_struct: self.cpl_band_struct@,
            cplendf: self.cplendf,
            ecplinu: self.ecplinu,
            first_cpl_coords: self.first_cpl_coords@,
            first_cpl_leak: self.first_cpl_leak,
            first_spx_coords: self.first_spx_coords@,
            lfe_on: self.lfe_on,
            lfe_fgain_code: self.lfe_fgain_code,
            lfe_fsnr_offset: self.lfe_fsnr_offset,
            ncplbnd: self.ncplbnd,
            ncplsubnd: self.ncplsubnd,
            phsflginu: self.phsflginu,
            sample_rate_index: self.sample_rate_index,
            spxbegf: self.spxbegf,
            spx_begin_subbnd: self.spx_begin_subbnd,
            spx_end_subbnd: self.spx_end_subbnd,
            spx_in_use: self.spx_in_use,
            nspxbnds: self.nspxbnds,
        }
    }
}

impl BlockModel {
    /// Every per-channel table has one entry per full-bandwidth channel.
    pub open spec fn wf(self, n: nat) -> bool {
        &&& self.channel_delta_modes.len() == n
        &&& self.channel_delta_segments.len() == n
        &&& self.channel_fgain_codes.len() == n
        &&& self.channel_fsnr_offsets.len() == n
        &&& self.chbwcod.len() == n
        &&& self.chincpl.len() == n
        &&& self.chinspx.len() == n
        &&& self.cpl_band_struct.len() == CPL_BANDS
        &&& self.first_cpl_coords.len() == n
        &&& self.first_spx_coords.len() == n
        &&& self.spxbegf <= 7
        &&& self.spx_begin_subbnd <= 11
        &&& self.spx_end_subbnd <= 17
        &&& self.nspxbnds <= 17
        &&& self.cplbegf <= self.cplendf <= 15
        &&& self.ncplbnd <= self.ncplsubnd <= 18
    }
}

/// The state at the start of a frame with `n` full-bandwidth channels.
pub open spec fn spec_new_state(n: nat, lfe_on: bool, sample_rate_index: usize) -> BlockModel {
    BlockModel {
        bit_allocation_params: spec_default_bit_allocation_params(),
        channel_delta_modes: Seq::new(n, |i: int| DeltaBitAllocationMode::NoDelta),
        channel_delta_segments: Seq::new(n, |i: int| Seq::<DeltaSegment>::empty()),
        channel_fgain_codes: Seq::new(n, |i: int| 4u8),
        channel_fsnr_offsets: Seq::new(n, |i: int| 0i32),
        chbwcod: Seq::new(n, |i: int| 0u8),
        chincpl: Seq::new(n, |i: int| false),
        chinspx: Seq::new(n, |i: int| false),
        csnr_offset: 0,
        cplbegf: 0,
        cpl_band_struct: spec_default_cpl_band_struct(),
        cplendf: 0,
        ecplinu: false,
        first_cpl_coords: Seq::new(n, |i: int| true),
        first_cpl_leak: true,
        first_spx_coords: Seq::new(n, |i: int| true),
        lfe_on,
        lfe_fgain_code: 4,
        lfe_fsnr_offset: 0,
        ncplbnd: 0,
        ncplsubnd: 0,
        phsflginu: false,
        sample_rate_index,
        spxbegf: 0,
        spx_begin_subbnd: 0,
        spx_end_subbnd: 0,
        spx_in_use: false,
        nspxbnds: 0,
    }
}

/// Spectral extension switched off: no channel in it, its coordinates due again.
pub open spec fn spec_clear_spx(s: BlockModel) -> BlockModel {
    BlockModel {
        spx_in_use: false,
        nspxbnds: 0,
        spx_begin_subbnd: 0,
        spx_end_subbnd: 0,
        spxbegf: 0,
        chinspx: Seq::new(s.chinspx.len(), |i: int| false),
        first_spx_coords: Seq::new(s.first_spx_coords.len(), |i: int| true),
        ..s
    }
}

/// Coupling switched off: no channel in it, its coordinates and leak values due again.
pub open spec fn spec_clear_coupling(s: BlockModel) -> BlockModel {
    BlockModel {
        ecplinu: false,
        cplbegf: 0,
        cplendf: 0,
        phsflginu: false,
        ncplbnd: 0,
        ncplsubnd: 0,
        chincpl: Seq::new(s.chincpl.len(), |i: int| false),
        first_cpl_coords: Seq::new(s.first_cpl_coords.len(), |i: int| true),
        first_cpl_leak: true,
        ..s
    }
}

/// `n` copies of `v`.
pub(crate) fn filled<T: Copy>(n: usize, v: T) -> (r: Vec<T>)
    ensures
        r@ == Seq::new(n as nat, |i: int| v),
{
    let mut r: Vec<T> = Vec::with_capacity(n);
    let mut k: usize = 0;
    while k < n
        invariant
            k <= n,
            r@ == Seq::new(k as nat, |i: int| v),
        decreases n - k,
    {
        r.push(v);
        k += 1;
        assert(r@ =~= Seq::new(k as nat, |i: int| v));
    }
    r
}

/// Sets every entry of `v` to `x`.
pub(crate) fn fill(v: &mut Vec<bool>, x: bool)
    ensures
        final(v)@ == Seq::new(old(v)@.len(), |i: int| x),
{
    let ghost n = v@.len();
    let mut k: usize = 0;
    while k < v.len()
        invariant
            k <= v@.len(),
            v@.len() == n,
            forall|i: int| 0 <= i < k ==> v@[i] == x,
        decreases v@.len() - k,
    {
        v.set(k, x);
        k += 1;
    }
    assert(v@ =~= Seq::new(n, |i: int| x));
}

impl BlockSyntaxState {
    /// The state at the start of a frame with `fullband_channels` full-bandwidth channels.
    pub fn new(fullband_channels: usize, lfe_on: bool, sample_rate_index: usize) -> (s: Self)
        ensures
            s@ == spec_new_state(fullband_channels as nat, lfe_on, sample_rate_index),
            s@.wf(fullband_channels as nat),
    {
        let mut segments: Vec<Vec<DeltaSegment>> = Vec::new();
        let mut k: usize = 0;
        while k < fullband_channels
            invariant
                k <= fullband_channels,
                segments@.len() == k,
                forall|i: int| 0 <= i < k ==> (#[trigger] segments@[i])@ == Seq::<DeltaSegment>::empty(),
            decreases fullband_channels - k,
        {
            segments.push(Vec::new());
            k += 1;
        }
        let cpl_band_struct = vec![
            false, false, false, false, false, false, false, false, true, false, true, true,
            false, true, true, true, true, true,
        ];
        let s = BlockSyntaxState {
            bit_allocation_params: BitAllocationParams::default_codes(),
            channel_delta_modes: filled(fullband_channels, DeltaBitAllocationMode::NoDelta),
            channel_delta_segments: segments,
            channel_fgain_codes: filled(fullband_channels, 4u8),
            channel_fsnr_offsets: filled(fullband_channels, 0i32),
            chbwcod: filled(fullband_channels, 0u8),
            chincpl: filled(fullband_channels, false),
            chinspx: filled(fullband_channels, false),
            csnr_offset: 0,
            cplbegf: 0,
            cpl_band_struct,
            cplendf: 0,
            ecplinu: false,
            first_cpl_coords: filled(fullband_channels, true),
            first_cpl_leak: true,
            first_spx_coords: filled(fullband_channels, true),
            lfe_on,
            lfe_fgain_code: 4,
            lfe_fsnr_offset: 0,
            ncplbnd: 0,
            ncplsubnd: 0,
            phsflginu: false,
            sample_rate_index,
            spxbegf: 0,
            spx_begin_subbnd: 0,
            spx_end_subbnd: 0,
            spx_in_use: false,
            nspxbnds: 0,
        };
        assert(s@.channel_delta_segments =~= Seq::new(
            fullband_channels as nat,
            |i: int| Seq::<DeltaSegment>::empty(),
        ));
        assert(s@.cpl_band_struct =~= spec_default_cpl_band_struct());
        s
    }

    /// Switches spectral extension off.
    pub fn clear_spx(&mut self)
        ensures
            final(self)@ == spec_clear_spx(old(self)@),
    {
        self.spx_in_use = false;
        self.nspxbnds = 0;
        self.spx_begin_subbnd = 0;
        self.spx_end_subbnd = 0;
        self.spxbegf = 0;
        fill(&mut self.chinspx, false);
        fill(&mut self.first_spx_coords, true);
        assert(self@.channel_delta_segments =~= old(self)@.channel_delta_segments);
    }

    /// Switches coupling off.
    pub fn clear_coupling(&mut self)
        ensures
            final(self)@ == spec_clear_coupling(old(self)@),
    {
        self.ecplinu = false;
        self.cplbegf = 0;
        self.cplendf = 0;
        self.phsflginu = false;
        self.ncplbnd = 0;
        self.ncplsubnd = 0;
        fill(&mut self.chincpl, false);
        fill(&mut self.first_cpl_coords, true);
        self.first_cpl_leak = true;
        assert(self@.channel_delta_segments =~= old(self)@.channel_delta_segments);
    }
}

/// Flags read, one bit each, into the entries of `flags` from index `ch` on.
pub open spec fn spec_read_flags(c: BitCursor, flags: Seq<bool>, ch: int) -> Result<
    (Seq<bool>, BitCursor),
    ParseError,
>
    decreases flags.len() - ch,
{
    if ch < 0 || ch >= flags.len() {
        Ok((flags, c))
    } else {
        match sflag(c) {
            Err(e) => Err(e),
            Ok((f, c1)) => spec_read_flags(c1, flags.update(ch, f), ch + 1),
        }
    }
}

/// Reads one flag into each entry of `flags`.
pub(crate) fn read_flags(reader: &mut BitReader, flags: &mut Vec<bool>) -> (r: Result<(), ParseError>)
    requires
        old(reader).wf(),
    ensures
        final(reader).wf(),
        final(flags)@.len() == old(flags)@.len(),
        match spec_read_flags(old(reader)@, old(flags)@, 0) {
            Ok((v, c)) => r is Ok && final(flags)@ == v && final(reader)@ == c,
            Err(e) => r == Err::<(), ParseError>(e),
        },
{
    let mut k: usize = 0;
    while k < flags.len()
        invariant
            reader.wf(),
            k <= flags@.len(),
            flags@.len() == old(flags)@.len(),
            spec_read_flags(old(reader)@, old(flags)@, 0) == spec_read_flags(
                reader@,
                flags@,
                k as int,
            ),
        decreases flags@.len() - k,
    {
        let f = rflag(reader)?;
        flags.set(k, f);
        k += 1;
    }
    Ok(())
}

/// First sub-band of spectral extension for the code `begf`.
pub open spec fn spec_spx_begin(begf: int) -> int {
    if begf < 6 {
        begf + 2
    } else {
        begf * 2 - 3
    }
}

/// End sub-band of spectral extension for the code `endf`.
pub open spec fn spec_spx_end(endf: int) -> int {
    if endf < 3 {
        endf + 5
    } else {
        endf * 2 + 3
    }
}

/// Band-structure flags read into `bs[band..end]`.
pub open spec fn spec_band_struct(c: BitCursor, bs: Seq<bool>, band: int, end: int) -> Result<
    (Seq<bool>, BitCursor),
    ParseError,
>
    decreases end - band,
{
    if band >= end {
        Ok((bs, c))
    } else {
        match sflag(c) {
            Err(e) => Err(e),
            Ok((f, c1)) => spec_band_struct(c1, bs.update(band, f), band + 1, end),
        }
    }
}

/// Sub-bands in `band..end` that start a new band (not merged into the one before).
pub open spec fn spec_unmerged(bs: Seq<bool>, band: int, end: int) -> int
    decreases end - band,
{
    if band >= end {
        0
    } else {
        (if 0 <= band < bs.len() && bs[band] {
            0int
        } else {
            1int
        }) + spec_unmerged(bs, band + 1, end)
    }
}

/// Number of spectral-extension bands for the sub-bands `begin..end`.
pub open spec fn spec_count_spx_bands(bs: Seq<bool>, begin: int, end: int) -> int {
    1 + spec_unmerged(bs, begin + 1, end)
}

proof fn lemma_unmerged_bound(bs: Seq<bool>, band: int, end: int)
    ensures
        0 <= spec_unmerged(bs, band, end) <= if end > band {
            end - band
        } else {
            0
        },
    decreases end - band,
{
    if band < end {
        lemma_unmerged_bound(bs, band + 1, end);
    }
}

/// Counts the spectral-extension bands of the sub-bands `begin_subbnd..end_subbnd`.
pub fn count_spx_bands(band_struct: &[bool], begin_subbnd: usize, end_subbnd: usize) -> (r: usize)
    requires
        begin_subbnd <= 17,
        end_subbnd <= 17,
    ensures
        r as int == spec_count_spx_bands(band_struct@, begin_subbnd as int, end_subbnd as int),
        r <= 17,
{
    let mut bands: usize = 1;
    let mut band: usize = begin_subbnd + 1;
    proof {
        lemma_unmerged_bound(band_struct@, band as int, end_subbnd as int);
    }
    while band < end_subbnd
        invariant
            end_subbnd <= 17,
            begin_subbnd < band,
            bands + spec_unmerged(band_struct@, band as int, end_subbnd as int) == spec_count_spx_bands(
                band_struct@,
                begin_subbnd as int,
                end_subbnd as int,
            ),
            bands <= band - begin_subbnd,
        decreases end_subbnd - band,
    {
        let merged = band < band_struct.len() && band_struct[band];
        if !merged {
            bands += 1;
        }
        band += 1;
    }
    bands
}

/// Sub-band range and band count of spectral extension: `spxbegf`, the first and end
/// sub-bands, and the number of bands.
#[verifier::opaque]
pub open spec fn spec_spx_bands(c: BitCursor) -> Result<
    ((usize, usize, usize, usize), BitCursor),
    ParseError,
> {
    match sskip(c, 2) {
        Err(e) => Err(e),
        Ok(c3) => match sread(c3, 3) {
            Err(e) => Err(e),
            Ok((begf, c4)) => match sread(c4, 3) {
                Err(e) => Err(e),
                Ok((endf, c5)) => {
                    let begin = spec_spx_begin(begf as int);
                    let end = spec_spx_end(endf as int);
                    match sflag(c5) {
                        Err(e) => Err(e),
                        Ok((explicit, c6)) => {
                            let blank = Seq::new(end as nat, |i: int| false);
                            let bs: Result<(Seq<bool>, BitCursor), ParseError> = if explicit {
                                spec_band_struct(c6, blank, begin + 1, end)
                            } else {
                                Ok((blank, c6))
                            };
                            match bs {
                                Err(e) => Err(e),
                                Ok((band_struct, c7)) => Ok(
                                    (
                                        (
                                            begf as usize,
                                            begin as usize,
                                            end as usize,
                                            spec_count_spx_bands(band_struct, begin, end) as usize,
                                        ),
                                        c7,
                                    ),
                                ),
                            }
                        },
                    }
                },
            },
        },
    }
}

/// Reads the spectral-extension strategy: channels, sub-band range and band structure.
#[verifier::opaque]
pub open spec fn spec_spx_strategy(c: BitCursor, s: BlockModel, channel_mode: u8) -> Result<
    (BlockModel, BitCursor),
    ParseError,
> {
    match sflag(c) {
        Err(e) => Err(e),
        Ok((in_use, c1)) => if !in_use {
            Ok((spec_clear_spx(s), c1))
        } else {
            let chans: Result<(Seq<bool>, BitCursor), ParseError> = if channel_mode == 1 {
                Ok((Seq::new(s.chinspx.len(), |i: int| i == 0), c1))
            } else {
                spec_read_flags(c1, s.chinspx, 0)
            };
            match chans {
                Err(e) => Err(e),
                Ok((chinspx, c2)) => match spec_spx_bands(c2) {
                    Err(e) => Err(e),
                    Ok(((begf, begin, end, bands), c3)) => Ok(
                        (
                            BlockModel {
                                spx_in_use: true,
                                chinspx,
                                spxbegf: begf,
                                spx_begin_subbnd: begin,
                                spx_end_subbnd: end,
                                nspxbnds: bands,
                                ..s
                            },
                            c3,
                        ),
                    ),
                },
            }
        },
    }
}

/// Reads band-structure flags into `bs[band..end]`.
fn read_band_struct(reader: &mut BitReader, bs: &mut Vec<bool>, band: usize, end: usize) -> (r:
    Result<(), ParseError>)
    requires
        old(reader).wf(),
        end <= old(bs)@.len(),
    ensures
        final(reader).wf(),
        final(bs)@.len() == old(bs)@.len(),
        match spec_band_struct(old(reader)@, old(bs)@, band as int, end as int) {
            Ok((v, c)) => r is Ok && final(bs)@ == v && final(reader)@ == c,
            Err(e) => r == Err::<(), ParseError>(e),
        },
{
    let mut k = band;
    while k < end
        invariant
            reader.wf(),
            end <= bs@.len(),
            bs@.len() == old(bs)@.len(),
            band <= k || end <= k,
            spec_band_struct(old(reader)@, old(bs)@, band as int, end as int) == spec_band_struct(
                reader@,
                bs@,
                k as int,
                end as int,
            ),
        decreases end - k,
    {
        let f = rflag(reader)?;
        bs.set(k, f);
        k += 1;
    }
    Ok(())
}

/// Reads the spectral-extension sub-band range and band structure.
fn read_spx_bands(reader: &mut BitReader) -> (r: Result<(usize, usize, usize, usize), ParseError>)
    requires
        old(reader).wf(),
    ensures
        final(reader).wf(),
        match spec_spx_bands(old(reader)@) {
            Ok((v, c)) => r == Ok::<(usize, usize, usize, usize), ParseError>(v) && final(reader)@
                == c && v.0 <= 7 && v.1 <= 11 && v.2 <= 17 && v.3 <= 17,
            Err(e) => r == Err::<(usize, usize, usize, usize), ParseError>(e),
        },
{
    proof {
        reveal(spec_spx_bands);
        lemma2_to64();
    }
    rskip(reader, 2)?;
    let begf = rd(reader, 3)? as usize;
    let endf = rd(reader, 3)? as usize;
    let begin = if begf < 6 {
        begf + 2
    } else {
        begf * 2 - 3
    };
    let end = if endf < 3 {
        endf + 5
    } else {
        endf * 2 + 3
    };
    let mut band_struct = filled(end, false);
    if rflag(reader)? {
        read_band_struct(reader, &mut band_struct, begin + 1, end)?;
    }
    let bands = count_spx_bands(band_struct.as_slice(), begin, end);
    Ok((begf, begin, end, bands))
}

impl BlockSyntaxState {
    /// Reads the spectral-extension strategy fields into the state.
    fn read_spx_strategy(&mut self, reader: &mut BitReader, channel_mode: u8, n: usize) -> (r:
        Result<(), ParseError>)
        requires
            old(reader).wf(),
            old(self)@.wf(n as nat),
        ensures
            final(reader).wf(),
            match spec_spx_strategy(old(reader)@, old(self)@, channel_mode) {
                Ok((s, c)) => r is Ok && final(self)@ == s && final(reader)@ == c && s.wf(n as nat),
                Err(e) => r == Err::<(), ParseError>(e),
            },
    {
        proof {
            reveal(spec_spx_strategy);
            lemma2_to64();
        }
        let ghost s0 = self@;
        let in_use = rflag(reader)?;
        if !in_use {
            self.clear_spx();
            return Ok(());
        }
        if channel_mode == 1 {
            fill(&mut self.chinspx, false);
            if self.chinspx.len() > 0 {
                self.chinspx.set(0, true);
            }
            assert(self.chinspx@ =~= Seq::new(s0.chinspx.len(), |i: int| i == 0));
        } else {
            read_flags(reader, &mut self.chinspx)?;
        }
        let (begf, begin, end, bands) = read_spx_bands(reader)?;
        self.spx_in_use = true;
        self.spxbegf = begf;
        self.spx_begin_subbnd = begin;
        self.spx_end_subbnd = end;
        self.nspxbnds = bands;
        assert(self@.channel_delta_segments =~= s0.channel_delta_segments);
        Ok(())
    }
}

/// Spectral-extension coordinates of channels `ch..`: a channel in spectral extension sends
/// them in its first block and then after a set flag; a channel outside it has them due again.
pub open spec fn spec_spx_coords(
    c: BitCursor,
    first: Seq<bool>,
    chinspx: Seq<bool>,
    nbands: int,
    ch: int,
) -> Result<(Seq<bool>, BitCursor), ParseError>
    decreases first.len() - ch,
{
    if ch < 0 || ch >= first.len() {
        Ok((first, c))
    } else if 0 <= ch < chinspx.len() && chinspx[ch] {
        if first[ch] {
            match sskip(c, 7 + nbands * 6) {
                Err(e) => Err(e),
                Ok(c1) => spec_spx_coords(c1, first.update(ch, false), chinspx, nbands, ch + 1),
            }
        } else {
            match sflag(c) {
                Err(e) => Err(e),
                Ok((present, c1)) => if present {
                    match sskip(c1, 7 + nbands * 6) {
                        Err(e) => Err(e),
                        Ok(c2) => spec_spx_coords(c2, first, chinspx, nbands, ch + 1),
                    }
                } else {
                    spec_spx_coords(c1, first, chinspx, nbands, ch + 1)
                },
            }
        }
    } else {
        spec_spx_coords(c, first.update(ch, true), chinspx, nbands, ch + 1)
    }
}

/// Spectral-extension syntax of audio block `block`: the strategy (always present in block 0,
/// else after a flag) and the coordinates when spectral extension is in use.
#[verifier::opaque]
pub open spec fn spec_read_spx(c: BitCursor, s: BlockModel, block: int, channel_mode: u8) -> Result<
    (BlockModel, BitCursor),
    ParseError,
> {
    let updates: Result<(bool, BitCursor), ParseError> = if block == 0 {
        Ok((true, c))
    } else {
        sflag(c)
    };
    match updates {
        Err(e) => Err(e),
        Ok((u, c1)) => {
            let r: Result<(BlockModel, BitCursor), ParseError> = if u {
                spec_spx_strategy(c1, s, channel_mode)
            } else {
                Ok((s, c1))
            };
            match r {
                Err(e) => Err(e),
                Ok((s2, c2)) => if s2.spx_in_use {
                    match spec_spx_coords(
                        c2,
                        s2.first_spx_coords,
                        s2.chinspx,
                        s2.nspxbnds as int,
                        0,
                    ) {
                        Err(e) => Err(e),
                        Ok((first, c3)) => Ok((BlockModel { first_spx_coords: first, ..s2 }, c3)),
                    }
                } else {
                    Ok((s2, c2))
                },
            }
        },
    }
}

impl BlockSyntaxState {
    /// Reads the spectral-extension coordinates of every channel.
    fn read_spx_coordinates(&mut self, reader: &mut BitReader, n: usize) -> (r: Result<
        (),
        ParseError,
    >)
        requires
            old(reader).wf(),
            old(self)@.wf(n as nat),
        ensures
            final(reader).wf(),
            match spec_spx_coords(
                old(reader)@,
                old(self)@.first_spx_coords,
                old(self)@.chinspx,
                old(self)@.nspxbnds as int,
                0,
            ) {
                Ok((first, c)) => r is Ok && final(self)@ == (BlockModel {
                    first_spx_coords: first,
                    ..old(self)@
                }) && final(reader)@ == c && first.len() == n,
                Err(e) => r == Err::<(), ParseError>(e),
            },
    {
        let ghost s0 = self@;
        let mut ch: usize = 0;
        while ch < n
            invariant
                reader.wf(),
                s0 == old(self)@,
                s0.wf(n as nat),
                ch <= n,
                self@ == (BlockModel { first_spx_coords: self@.first_spx_coords, ..s0 }),
                self@.first_spx_coords.len() == n,
                spec_spx_coords(
                    old(reader)@,
                    s0.first_spx_coords,
                    s0.chinspx,
                    s0.nspxbnds as int,
                    0,
                ) == spec_spx_coords(
                    reader@,
                    self@.first_spx_coords,
                    s0.chinspx,
                    s0.nspxbnds as int,
                    ch as int,
                ),
            decreases n - ch,
        {
            if self.chinspx[ch] {
                let present = if self.first_spx_coords[ch] {
                    self.first_spx_coords.set(ch, false);
                    true
                } else {
                    rflag(reader)?
                };
                if present {
                    rskip(reader, 7 + self.nspxbnds * 6)?;
                }
            } else {
                self.first_spx_coords.set(ch, true);
            }
            assert(self@.channel_delta_segments =~= s0.channel_delta_segments);
            ch += 1;
        }
        Ok(())
    }

    /// Reads the spectral-extension syntax of audio block `block`.
    pub fn read_spx(&mut self, reader: &mut BitReader, block: usize, channel_mode: u8, n: usize) -> (r:
        Result<(), ParseError>)
        requires
            old(reader).wf(),
            old(self)@.wf(n as nat),
        ensures
            final(reader).wf(),
            match spec_read_spx(old(reader)@, old(self)@, block as int, channel_mode) {
                Ok((s, c)) => r is Ok && final(self)@ == s && final(reader)@ == c && s.wf(n as nat),
                Err(e) => r == Err::<(), ParseError>(e),
            },
    {
        proof {
            reveal(spec_read_spx);
        }
        let updates = if block == 0 {
            true
        } else {
            rflag(reader)?
        };
        if updates {
            self.read_spx_strategy(reader, channel_mode, n)?;
        }
        if self.spx_in_use {
            self.read_spx_coordinates(reader, n)?;
        }
        Ok(())
    }
}

} // verus!
