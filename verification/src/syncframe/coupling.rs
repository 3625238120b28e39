//! Coupling strategy and coupling coordinates of an audio block.

use crate::bitreader::{BitCursor, BitReader};
use crate::syncframe::block::{
    spec_clear_coupling, spec_read_flags, BlockModel, BlockSyntaxState, CPL_BANDS,
};
use crate::syncframe::types::{
    rd, rflag, rskip, sflag, sread, sskip, AudioFrameInfo, AudioFrameModel, ParseError,
};
use vstd::arithmetic::power2::lemma2_to64;
use vstd::prelude::*;

verus! {

/// Explicit coupling band structure: for each sub-band `band` in `band..nsub`, a flag that
/// merges it into the band before; the band count drops by one for each merge.
pub open spec fn spec_cpl_band_flags(
    c: BitCursor,
    bs: Seq<bool>,
    begf: int,
    band: int,
    nsub: int,
    nbnd: int,
) -> Result<(Seq<bool>, int, BitCursor), ParseError>
    decreases nsub - band,
{
    if band >= nsub {
        Ok((bs, nbnd, c))
    } else {
        match sflag(c) {
            Err(e) => Err(e),
            Ok((merge, c1)) => {
                let index = begf + band;
                if index < 0 || index >= CPL_BANDS {
                    Err(ParseError::InvalidHeader("cplbndstrc"))
                } else {
                    spec_cpl_band_flags(
                        c1,
                        bs.update(index, merge),
                        begf,
                        band + 1,
                        nsub,
                        if merge {
                            nbnd - 1
                        } else {
                            nbnd
                        },
                    )
                }
            },
        }
    }
}

/// Sub-bands in `band..nsub` merged by the stored band structure.
pub open spec fn spec_cpl_merged(bs: Seq<bool>, begf: int, band: int, nsub: int) -> int
    decreases nsub - band,
{
    if band >= nsub {
        0
    } else {
        (if 0 <= begf + band < bs.len() && bs[begf + band] {
            1int
        } else {
            0int
        }) + spec_cpl_merged(bs, begf, band + 1, nsub)
    }
}

/// End frequency code of coupling: read when spectral extension is off, else derived from the
/// spectral-extension start code.
pub open spec fn spec_cplendf(c: BitCursor, spx_in_use: bool, spxbegf: usize) -> Result<
    (int, BitCursor),
    ParseError,
> {
    if !spx_in_use {
        match sread(c, 4) {
            Err(e) => Err(e),
            Ok((v, c1)) => Ok((v as int, c1)),
        }
    } else if spxbegf < 6 {
        if spxbegf < 2 {
            Err(ParseError::InvalidHeader("spxbegf"))
        } else {
            Ok((spxbegf - 2, c))
        }
    } else {
        Ok((spxbegf * 2 - 7, c))
    }
}

/// Frequency range and band structure of coupling: the phase-flag switch, start and end codes,
/// sub-band count, band structure and band count.
#[verifier::opaque]
pub open spec fn spec_cpl_range(
    c: BitCursor,
    spx_in_use: bool,
    spxbegf: usize,
    band_struct: Seq<bool>,
    channel_mode: u8,
) -> Result<
    ((bool, int, int, int, Seq<bool>, int), BitCursor),
    ParseError,
> {
    let phs: Result<(bool, BitCursor), ParseError> = if channel_mode == 2 {
        sflag(c)
    } else {
        Ok((false, c))
    };
    match phs {
        Err(e) => Err(e),
        Ok((phsflginu, c3)) => match sread(c3, 4) {
            Err(e) => Err(e),
            Ok((begf, c4)) => match spec_cplendf(c4, spx_in_use, spxbegf) {
                Err(e) => Err(e),
                Ok((endf, c5)) => if endf < begf {
                    Err(ParseError::InvalidHeader("cplendf"))
                } else {
                    let nsub = 3 + endf - begf;
                    match sflag(c5) {
                        Err(e) => Err(e),
                        Ok((explicit, c6)) => {
                            let bands: Result<(Seq<bool>, int, BitCursor), ParseError> =
                                if explicit {
                                spec_cpl_band_flags(
                                    c6,
                                    band_struct,
                                    begf as int,
                                    1,
                                    nsub,
                                    nsub,
                                )
                            } else {
                                Ok(
                                    (
                                        band_struct,
                                        nsub - spec_cpl_merged(
                                            band_struct,
                                            begf as int,
                                            1,
                                            nsub,
                                        ),
                                        c6,
                                    ),
                                )
                            };
                            match bands {
                                Err(e) => Err(e),
                                Ok((bs, nbnd, c7)) => Ok(
                                    ((phsflginu, begf as int, endf, nsub, bs, nbnd), c7),
                                ),
                            }
                        },
                    }
                },
            },
        },
    }
}

/// The coupling strategy of a block that switches coupling on: channels, frequency range and
/// band structure. Enhanced coupling is not supported.
#[verifier::opaque]
pub open spec fn spec_cpl_strategy(c: BitCursor, s: BlockModel, channel_mode: u8) -> Result<
    (BlockModel, BitCursor),
    ParseError,
> {
    match sflag(c) {
        Err(e) => Err(e),
        Ok((ecplinu, c1)) => {
            let chans: Result<(Seq<bool>, BitCursor), ParseError> = if channel_mode == 2 {
                Ok((Seq::new(s.chincpl.len(), |i: int| true), c1))
            } else {
                spec_read_flags(c1, s.chincpl, 0)
            };
            match chans {
                Err(e) => Err(e),
                Ok((chincpl, c2)) => if ecplinu {
                    Err(ParseError::UnsupportedFeature("ecplinu"))
                } else {
                    match spec_cpl_range(
                        c2,
                        s.spx_in_use,
                        s.spxbegf,
                        s.cpl_band_struct,
                        channel_mode,
                    ) {
                        Err(e) => Err(e),
                        Ok(((phsflginu, begf, endf, nsub, bs, nbnd), c3)) => Ok(
                            (
                                BlockModel {
                                    ecplinu: false,
                                    chincpl,
                                    phsflginu,
                                    cplbegf: begf as usize,
                                    cplendf: endf as usize,
                                    ncplsubnd: nsub as usize,
                                    ncplbnd: nbnd as usize,
                                    cpl_band_struct: bs,
                                    ..s
                                },
                                c3,
                            ),
                        ),
                    }
                },
            }
        },
    }
}

/// Coupling strategy of audio block `block`: off for modes without a channel pair, unchanged
/// unless the frame updates it for this block, and read when coupling is in use.
pub open spec fn spec_read_coupling_strategy(
    c: BitCursor,
    s: BlockModel,
    block: int,
    channel_mode: u8,
    af: AudioFrameModel,
) -> Result<(BlockModel, BitCursor), ParseError> {
    if channel_mode <= 1 {
        Ok((spec_clear_coupling(s), c))
    } else if !af.coupling_strategy_updates[block] {
        Ok((s, c))
    } else if !af.coupling_in_use[block] {
        Ok((spec_clear_coupling(s), c))
    } else {
        spec_cpl_strategy(c, s, channel_mode)
    }
}

/// Coupling coordinates of channels `ch..`: a coupled channel sends them in its first block and
/// then after a set flag; `required` records whether a channel pair sent any.
pub open spec fn spec_cpl_coords(
    c: BitCursor,
    first: Seq<bool>,
    chincpl: Seq<bool>,
    nbnd: int,
    channel_mode: u8,
    ch: int,
    required: bool,
) -> Result<(Seq<bool>, bool, BitCursor), ParseError>
    decreases first.len() - ch,
{
    if ch < 0 || ch >= first.len() {
        Ok((first, required, c))
    } else if 0 <= ch < chincpl.len() && chincpl[ch] {
        let present: Result<(bool, Seq<bool>, BitCursor), ParseError> = if first[ch] {
            Ok((true, first.update(ch, false), c))
        } else {
            match sflag(c) {
                Err(e) => Err(e),
                Ok((p, c1)) => Ok((p, first, c1)),
            }
        };
        match present {
            Err(e) => Err(e),
            Ok((p, first1, c1)) => if p {
                match sskip(c1, 2 + nbnd * 8) {
                    Err(e) => Err(e),
                    Ok(c2) => spec_cpl_coords(
                        c2,
                        first1,
                        chincpl,
                        nbnd,
                        channel_mode,
                        ch + 1,
                        required || channel_mode == 2,
                    ),
                }
            } else {
                spec_cpl_coords(c1, first1, chincpl, nbnd, channel_mode, ch + 1, required)
            },
        }
    } else {
        spec_cpl_coords(c, first.update(ch, true), chincpl, nbnd, channel_mode, ch + 1, required)
    }
}

/// Coupling coordinates of audio block `block`. Enhanced coupling and stereo phase flags are
/// not supported.
pub open spec fn spec_read_coupling_coordinates(
    c: BitCursor,
    s: BlockModel,
    block: int,
    channel_mode: u8,
    af: AudioFrameModel,
) -> Result<(BlockModel, BitCursor), ParseError> {
    if !af.coupling_in_use[block] {
        Ok((s, c))
    } else if s.ecplinu {
        Err(ParseError::UnsupportedFeature("ecplinu"))
    } else {
        match spec_cpl_coords(
            c,
            s.first_cpl_coords,
            s.chincpl,
            s.ncplbnd as int,
            channel_mode,
            0,
            false,
        ) {
            Err(e) => Err(e),
            Ok((first, required, c1)) => if channel_mode == 2 && s.phsflginu && required {
                Err(ParseError::UnsupportedFeature("stereo-coupling-phase"))
            } else {
                Ok((BlockModel { first_cpl_coords: first, ..s }, c1))
            },
        }
    }
}

proof fn lemma_cpl_merged_bound(bs: Seq<bool>, begf: int, band: int, nsub: int)
    ensures
        0 <= spec_cpl_merged(bs, begf, band, nsub) <= if nsub > band {
            nsub - band
        } else {
            0
        },
    decreases nsub - band,
{
    if band < nsub {
        lemma_cpl_merged_bound(bs, begf, band + 1, nsub);
    }
}

/// Reads the explicit coupling band structure for sub-bands `1..nsub`; returns the band count.
fn read_cpl_band_flags(reader: &mut BitReader, bs: &mut Vec<bool>, begf: usize, nsub: usize) -> (r:
    Result<usize, ParseError>)
    requires
        old(reader).wf(),
        old(bs)@.len() == CPL_BANDS,
        1 <= nsub <= 18,
        begf <= 15,
    ensures
        final(reader).wf(),
        final(bs)@.len() == CPL_BANDS,
        match spec_cpl_band_flags(old(reader)@, old(bs)@, begf as int, 1, nsub as int, nsub as int) {
            Ok((v, nb, c)) => r == Ok::<usize, ParseError>(nb as usize) && final(bs)@ == v
                && final(reader)@ == c && 1 <= nb <= nsub,
            Err(e) => r == Err::<usize, ParseError>(e),
        },
{
    let mut nbnd: usize = nsub;
    let mut band: usize = 1;
    while band < nsub
        invariant
            reader.wf(),
            bs@.len() == CPL_BANDS,
            1 <= nsub <= 18,
            begf <= 15,
            1 <= band <= nsub,
            nsub - band + 1 <= nbnd <= nsub,
            spec_cpl_band_flags(old(reader)@, old(bs)@, begf as int, 1, nsub as int, nsub as int)
                == spec_cpl_band_flags(reader@, bs@, begf as int, band as int, nsub as int, nbnd as int),
        decreases nsub - band,
    {
        let merge = rflag(reader)?;
        let index = begf + band;
        if index >= CPL_BANDS {
            return Err(ParseError::InvalidHeader("cplbndstrc"));
        }
        bs.set(index, merge);
        if merge {
            nbnd -= 1;
        }
        band += 1;
    }
    Ok(nbnd)
}

/// Band count from the stored band structure for sub-bands `1..nsub`.
fn count_cpl_bands(bs: &Vec<bool>, begf: usize, nsub: usize) -> (r: usize)
    requires
        1 <= nsub <= 18,
        begf <= 15,
    ensures
        r as int == nsub - spec_cpl_merged(bs@, begf as int, 1, nsub as int),
        1 <= r <= nsub,
{
    let mut nbnd: usize = nsub;
    let mut band: usize = 1;
    proof {
        lemma_cpl_merged_bound(bs@, begf as int, 1, nsub as int);
    }
    while band < nsub
        invariant
            1 <= nsub <= 18,
            begf <= 15,
            1 <= band <= nsub,
            nsub - band + 1 <= nbnd <= nsub,
            nbnd - spec_cpl_merged(bs@, begf as int, band as int, nsub as int) == nsub
                - spec_cpl_merged(bs@, begf as int, 1, nsub as int),
        decreases nsub - band,
    {
        let index = begf + band;
        if index < bs.len() && bs[index] {
            nbnd -= 1;
        }
        band += 1;
    }
    nbnd
}

impl BlockSyntaxState {
    /// Reads the coupling frequency range and band structure; only the band structure of the
    /// state changes.
    fn read_cpl_range(&mut self, reader: &mut BitReader, channel_mode: u8, n: usize) -> (r: Result<
        (bool, usize, usize, usize, usize),
        ParseError,
    >)
        requires
            old(reader).wf(),
            old(self)@.wf(n as nat),
        ensures
            final(reader).wf(),
            match spec_cpl_range(
                old(reader)@,
                old(self)@.spx_in_use,
                old(self)@.spxbegf,
                old(self)@.cpl_band_struct,
                channel_mode,
            ) {
                Ok((v, c)) => r matches Ok(x) && x.0 == v.0 && x.1 as int == v.1 && x.2 as int
                    == v.2 && x.3 as int == v.3 && x.4 as int == v.5 && final(self)@ == (
                BlockModel { cpl_band_struct: v.4, ..old(self)@ }) && final(reader)@ == c && x.1
                    <= x.2 <= 15 && x.4 <= x.3 <= 18 && v.4.len() == CPL_BANDS,
                Err(e) => r == Err::<(bool, usize, usize, usize, usize), ParseError>(e),
            },
    {
        proof {
            reveal(spec_cpl_range);
            lemma2_to64();
        }
        let ghost s0 = self@;
        let phsflginu = if channel_mode == 2 {
            rflag(reader)?
        } else {
            false
        };
        let begf = rd(reader, 4)? as usize;
        let endf: usize = if !self.spx_in_use {
            rd(reader, 4)? as usize
        } else if self.spxbegf < 6 {
            if self.spxbegf < 2 {
                return Err(ParseError::InvalidHeader("spxbegf"));
            }
            self.spxbegf - 2
        } else {
            self.spxbegf * 2 - 7
        };
        if endf < begf {
            return Err(ParseError::InvalidHeader("cplendf"));
        }
        let nsub = 3 + endf - begf;
        let nbnd = if rflag(reader)? {
            read_cpl_band_flags(reader, &mut self.cpl_band_struct, begf, nsub)?
        } else {
            count_cpl_bands(&self.cpl_band_struct, begf, nsub)
        };
        assert(self@.channel_delta_segments =~= s0.channel_delta_segments);
        Ok((phsflginu, begf, endf, nsub, nbnd))
    }

    /// Reads the coupling strategy of a block that switches coupling on.
    #[verifier::rlimit(30)]
    fn read_cpl_strategy(&mut self, reader: &mut BitReader, channel_mode: u8, n: usize) -> (r:
        Result<(), ParseError>)
        requires
            old(reader).wf(),
            old(self)@.wf(n as nat),
        ensures
            final(reader).wf(),
            match spec_cpl_strategy(old(reader)@, old(self)@, channel_mode) {
                Ok((s, c)) => r is Ok && final(self)@ == s && final(reader)@ == c && s.wf(n as nat),
                Err(e) => r == Err::<(), ParseError>(e),
            },
    {
        proof {
            reveal(spec_cpl_strategy);
        }
        let ghost s0 = self@;
        let ecplinu = rflag(reader)?;
        if channel_mode == 2 {
            crate::syncframe::block::fill(&mut self.chincpl, true);
        } else {
            crate::syncframe::block::read_flags(reader, &mut self.chincpl)?;
        }
        if ecplinu {
            return Err(ParseError::UnsupportedFeature("ecplinu"));
        }
        let ghost s1 = self@;
        assert(s1 == BlockModel { chincpl: s1.chincpl, ..s0 }) by {
            assert(s1.channel_delta_segments =~= s0.channel_delta_segments);
        }
        let (phsflginu, begf, endf, nsub, nbnd) = self.read_cpl_range(reader, channel_mode, n)?;
        self.ecplinu = false;
        self.phsflginu = phsflginu;
        self.cplbegf = begf;
        self.cplendf = endf;
        self.ncplsubnd = nsub;
        self.ncplbnd = nbnd;
        assert(self@.channel_delta_segments =~= s0.channel_delta_segments);
        Ok(())
    }

    /// Reads the coupling strategy of audio block `block`.
    pub fn read_coupling_strategy(
        &mut self,
        reader: &mut BitReader,
        block: usize,
        channel_mode: u8,
        n: usize,
        audio_frame: &AudioFrameInfo,
    ) -> (r: Result<(), ParseError>)
        requires
            old(reader).wf(),
            old(self)@.wf(n as nat),
            block < audio_frame@.coupling_strategy_updates.len(),
            block < audio_frame@.coupling_in_use.len(),
        ensures
            final(reader).wf(),
            match spec_read_coupling_strategy(
                old(reader)@,
                old(self)@,
                block as int,
                channel_mode,
                audio_frame@,
            ) {
                Ok((s, c)) => r is Ok && final(self)@ == s && final(reader)@ == c && s.wf(n as nat),
                Err(e) => r == Err::<(), ParseError>(e),
            },
    {
        if channel_mode <= 1 {
            self.clear_coupling();
            return Ok(());
        }
        if audio_frame.coupling_strategy_updates[block] {
            if audio_frame.coupling_in_use[block] {
                self.read_cpl_strategy(reader, channel_mode, n)?;
            } else {
                self.clear_coupling();
            }
        }
        Ok(())
    }

    /// Reads the coupling coordinates of every coupled channel.
    fn read_cpl_coords(&mut self, reader: &mut BitReader, channel_mode: u8, n: usize) -> (r: Result<
        bool,
        ParseError,
    >)
        requires
            old(reader).wf(),
            old(self)@.wf(n as nat),
        ensures
            final(reader).wf(),
            match spec_cpl_coords(
                old(reader)@,
                old(self)@.first_cpl_coords,
                old(self)@.chincpl,
                old(self)@.ncplbnd as int,
                channel_mode,
                0,
                false,
            ) {
                Ok((first, req, c)) => r == Ok::<bool, ParseError>(req) && final(self)@ == (
                BlockModel { first_cpl_coords: first, ..old(self)@ }) && final(reader)@ == c
                    && first.len() == n,
                Err(e) => r == Err::<bool, ParseError>(e),
            },
    {
        let ghost s0 = self@;
        let mut required = false;
        let mut ch: usize = 0;
        while ch < n
            invariant
                reader.wf(),
                s0 == old(self)@,
                s0.wf(n as nat),
                ch <= n,
                self@ == (BlockModel { first_cpl_coords: self@.first_cpl_coords, ..s0 }),
                self@.first_cpl_coords.len() == n,
                spec_cpl_coords(
                    old(reader)@,
                    s0.first_cpl_coords,
                    s0.chincpl,
                    s0.ncplbnd as int,
                    channel_mode,
                    0,
                    false,
                ) == spec_cpl_coords(
                    reader@,
                    self@.first_cpl_coords,
                    s0.chincpl,
                    s0.ncplbnd as int,
                    channel_mode,
                    ch as int,
                    required,
                ),
            decreases n - ch,
        {
            if self.chincpl[ch] {
                let present = if self.first_cpl_coords[ch] {
                    self.first_cpl_coords.set(ch, false);
                    true
                } else {
                    rflag(reader)?
                };
                if present {
                    rskip(reader, 2 + self.ncplbnd * 8)?;
                    required = required || channel_mode == 2;
                }
            } else {
                self.first_cpl_coords.set(ch, true);
            }
            assert(self@.channel_delta_segments =~= s0.channel_delta_segments);
            ch += 1;
        }
        Ok(required)
    }

    /// Reads the coupling coordinates of audio block `block`.
    pub fn read_coupling_coordinates(
        &mut self,
        reader: &mut BitReader,
        block: usize,
        channel_mode: u8,
        n: usize,
        audio_frame: &AudioFrameInfo,
    ) -> (r: Result<(), ParseError>)
        requires
            old(reader).wf(),
            old(self)@.wf(n as nat),
            block < audio_frame@.coupling_in_use.len(),
        ensures
            final(reader).wf(),
            match spec_read_coupling_coordinates(
                old(reader)@,
                old(self)@,
                block as int,
                channel_mode,
                audio_frame@,
            ) {
                Ok((s, c)) => r is Ok && final(self)@ == s && final(reader)@ == c && s.wf(n as nat),
                Err(e) => r == Err::<(), ParseError>(e),
            },
    {
        if !audio_frame.coupling_in_use[block] {
            return Ok(());
        }
        if self.ecplinu {
            return Err(ParseError::UnsupportedFeature("ecplinu"));
        }
        let required = self.read_cpl_coords(reader, channel_mode, n)?;
        if channel_mode == 2 && self.phsflginu && required {
            return Err(ParseError::UnsupportedFeature("stereo-coupling-phase"));
        }
        Ok(())
    }
}

} // verus!
