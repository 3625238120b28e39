//! Frame-level audio syntax (`audfrm`) of an E-AC-3 syncframe.

use crate::bitreader::{BitCursor, BitReader};
use crate::syncframe::types::{
    rd, rflag, sflag, sread, AudioFrameInfo, AudioFrameModel, ExpStrategy, FrameType,
    ParseError, TransientProcessorInfo,
};
use vstd::arithmetic::power2::{lemma2_to64, pow2};
use vstd::prelude::*;

verus! {

/// Exponent strategy coded by a two-bit value.
pub open spec fn spec_exp_from_bits(bits: nat) -> Result<ExpStrategy, ParseError> {
    if bits == 0 {
        Ok(ExpStrategy::Reuse)
    } else if bits == 1 {
        Ok(ExpStrategy::D15)
    } else if bits == 2 {
        Ok(ExpStrategy::D25)
    } else if bits == 3 {
        Ok(ExpStrategy::D45)
    } else {
        Err(ParseError::InvalidHeader("expstr"))
    }
}

pub open spec fn spec_frm_exp_row(code: nat) -> u32 {
    if code == 0 {
        0x400
    } else if code == 1 {
        0x403
    } else if code == 2 {
        0x408
    } else if code == 3 {
        0x40f
    } else if code == 4 {
        0x820
    } else if code == 5 {
        0x823
    } else if code == 6 {
        0x838
    } else if code == 7 {
        0x83f
    } else if code == 8 {
        0x840
    } else if code == 9 {
        0x883
    } else if code == 10 {
        0x888
    } else if code == 11 {
        0x88f
    } else if code == 12 {
        0x8e0
    } else if code == 13 {
        0x8e3
    } else if code == 14 {
        0x8f8
    } else if code == 15 {
        0x8ff
    } else if code == 16 {
        0xd00
    } else if code == 17 {
        0xd03
    } else if code == 18 {
        0xe08
    } else if code == 19 {
        0xe0f
    } else if code == 20 {
        0xe20
    } else if code == 21 {
        0xe23
    } else if code == 22 {
        0xe38
    } else if code == 23 {
        0xe3f
    } else if code == 24 {
        0xf40
    } else if code == 25 {
        0xf83
    } else if code == 26 {
        0xf88
    } else if code == 27 {
        0xf8f
    } else if code == 28 {
        0xfe0
    } else if code == 29 {
        0xfe3
    } else if code == 30 {
        0xff8
    } else {
        0xfff
    }
}

fn frm_exp_row(code: u8) -> (row: u32)
    requires
        code < 32,
    ensures
        row == spec_frm_exp_row(code as nat),
{
    match code {
        0 => 0x400,
        1 => 0x403,
        2 => 0x408,
        3 => 0x40f,
        4 => 0x820,
        5 => 0x823,
        6 => 0x838,
        7 => 0x83f,
        8 => 0x840,
        9 => 0x883,
        10 => 0x888,
        11 => 0x88f,
        12 => 0x8e0,
        13 => 0x8e3,
        14 => 0x8f8,
        15 => 0x8ff,
        16 => 0xd00,
        17 => 0xd03,
        18 => 0xe08,
        19 => 0xe0f,
        20 => 0xe20,
        21 => 0xe23,
        22 => 0xe38,
        23 => 0xe3f,
        24 => 0xf40,
        25 => 0xf83,
        26 => 0xf88,
        27 => 0xf8f,
        28 => 0xfe0,
        29 => 0xfe3,
        30 => 0xff8,
        _ => 0xfff,
    }
}

/// Two-bit strategy code of block `block` in the frame exponent strategy combination `code`.
pub open spec fn spec_frm_exp_value(code: nat, block: nat) -> u32 {
    (spec_frm_exp_row(code) >> ((2 * (5 - block)) as u32)) & 3u32
}

/// Exponent strategy of block `block` under the frame exponent strategy combination `code`.
pub open spec fn spec_exp_from_frame_code(code: nat, block: nat) -> Result<ExpStrategy, ParseError> {
    if code >= 32 || block >= 6 {
        Err(ParseError::InvalidHeader("frm-expstr"))
    } else {
        spec_exp_from_bits(spec_frm_exp_value(code, block) as nat)
    }
}

impl ExpStrategy {
    /// Strategy coded by a two-bit `expstr` value.
    pub fn from_bits(bits: u32) -> (r: Result<Self, ParseError>)
        ensures
            r == spec_exp_from_bits(bits as nat),
    {
        match bits {
            0 => Ok(Self::Reuse),
            1 => Ok(Self::D15),
            2 => Ok(Self::D25),
            3 => Ok(Self::D45),
            _ => Err(ParseError::InvalidHeader("expstr")),
        }
    }

    /// Strategy of block `block` under a five-bit frame exponent strategy combination.
    pub fn from_frame_code(code: u8, block: usize) -> (r: Result<Self, ParseError>)
        ensures
            r == spec_exp_from_frame_code(code as nat, block as nat),
            code < 32 && block < 6 ==> r is Ok,
    {
        if code >= 32 || block >= 6 {
            return Err(ParseError::InvalidHeader("frm-expstr"));
        }
        let row = frm_exp_row(code);
        let value = (row >> ((2 * (5 - block)) as u32)) & 3u32;
        assert(((row >> ((2 * (5 - block)) as u32)) & 3u32) <= 3u32) by (bit_vector);
        Self::from_bits(value)
    }
}

/// Frame-level flags at the start of `audfrm`.
#[derive(Debug, Clone, Copy, PartialEq, Eq)]
pub struct AudioFrameFlags {
    pub exponent_strategies_embedded: bool,
    pub adaptive_hybrid_transform_enabled: bool,
    pub snr_offset_strategy: u8,
    pub transient_processing_enabled: bool,
    pub block_switching_enabled: bool,
    pub dithering_enabled: bool,
    pub bit_allocation_mode_enabled: bool,
    pub frame_gain_syntax_enabled: bool,
    pub delta_bit_allocation_enabled: bool,
    pub skip_field_syntax_enabled: bool,
    pub spectral_extension_attenuation_enabled: bool,
}

/// Eight consecutive one-bit flags.
pub open spec fn spec_flags8(c: BitCursor) -> Result<(Seq<bool>, BitCursor), ParseError>
    decreases 8int,
{
    spec_flags_rest(c, 8, Seq::empty())
}

/// `n` more one-bit flags appended to `acc`.
pub open spec fn spec_flags_rest(c: BitCursor, n: nat, acc: Seq<bool>) -> Result<
    (Seq<bool>, BitCursor),
    ParseError,
>
    decreases n,
{
    if n == 0 {
        Ok((acc, c))
    } else {
        match sflag(c) {
            Err(e) => Err(e),
            Ok((f, c1)) => spec_flags_rest(c1, (n - 1) as nat, acc.push(f)),
        }
    }
}

/// The flags of `audfrm`; adaptive hybrid transform is not supported.
#[verifier::opaque]
pub open spec fn spec_audio_flags(c: BitCursor, num_blocks: nat) -> Result<
    (AudioFrameFlags, BitCursor),
    ParseError,
> {
    let expstre: Result<(bool, BitCursor), ParseError> = if num_blocks != 6 {
        Ok((true, c))
    } else {
        sflag(c)
    };
    match expstre {
        Err(e) => Err(e),
        Ok((expstre, c1)) => {
            let ahte: Result<(bool, BitCursor), ParseError> = if num_blocks == 6 {
                sflag(c1)
            } else {
                Ok((false, c1))
            };
            match ahte {
                Err(e) => Err(e),
                Ok((ahte, c2)) => if ahte {
                    Err(ParseError::UnsupportedFeature("aht"))
                } else {
                    match sread(c2, 2) {
                        Err(e) => Err(e),
                        Ok((snr, c3)) => match spec_flags_rest(c3, 8, Seq::empty()) {
                            Err(e) => Err(e),
                            Ok((f, c4)) => Ok(
                                (
                                    AudioFrameFlags {
                                        exponent_strategies_embedded: expstre,
                                        adaptive_hybrid_transform_enabled: false,
                                        snr_offset_strategy: snr as u8,
                                        transient_processing_enabled: f[0],
                                        block_switching_enabled: f[1],
                                        dithering_enabled: f[2],
                                        bit_allocation_mode_enabled: f[3],
                                        frame_gain_syntax_enabled: f[4],
                                        delta_bit_allocation_enabled: f[5],
                                        skip_field_syntax_enabled: f[6],
                                        spectral_extension_attenuation_enabled: f[7],
                                    },
                                    c4,
                                ),
                            ),
                        },
                    }
                },
            }
        },
    }
}

fn read_flags(r: &mut BitReader, n: usize) -> (res: Result<Vec<bool>, ParseError>)
    requires
        old(r).wf(),
    ensures
        final(r).wf(),
        match spec_flags_rest(old(r)@, n as nat, Seq::empty()) {
            Ok((f, c)) => res matches Ok(v) && v@ == f && final(r)@ == c,
            Err(e) => res matches Err(re) && re == e,
        },
        res matches Ok(v) ==> v@.len() == n,
{
    let mut out: Vec<bool> = Vec::new();
    let mut k: usize = 0;
    while k < n
        invariant
            r.wf(),
            k <= n,
            out@.len() == k,
            spec_flags_rest(old(r)@, n as nat, Seq::empty()) == spec_flags_rest(
                r@,
                (n - k) as nat,
                out@,
            ),
        decreases n - k,
    {
        let f = rflag(r)?;
        out.push(f);
        k = k + 1;
    }
    Ok(out)
}

pub fn read_audio_flags(r: &mut BitReader, num_blocks: usize) -> (res: Result<
    AudioFrameFlags,
    ParseError,
>)
    requires
        old(r).wf(),
    ensures
        final(r).wf(),
        match spec_audio_flags(old(r)@, num_blocks as nat) {
            Ok((f, c)) => res == Ok::<AudioFrameFlags, ParseError>(f) && final(r)@ == c,
            Err(e) => res == Err::<AudioFrameFlags, ParseError>(e),
        },
{
    reveal(spec_audio_flags);
    proof {
        lemma2_to64();
    }
    let expstre = if num_blocks != 6 {
        true
    } else {
        rflag(r)?
    };
    let ahte = if num_blocks == 6 {
        rflag(r)?
    } else {
        false
    };
    if ahte {
        return Err(ParseError::UnsupportedFeature("aht"));
    }
    let snr = rd(r, 2)? as u8;
    let f = read_flags(r, 8)?;
    Ok(
        AudioFrameFlags {
            exponent_strategies_embedded: expstre,
            adaptive_hybrid_transform_enabled: false,
            snr_offset_strategy: snr,
            transient_processing_enabled: f[0],
            block_switching_enabled: f[1],
            dithering_enabled: f[2],
            bit_allocation_mode_enabled: f[3],
            frame_gain_syntax_enabled: f[4],
            delta_bit_allocation_enabled: f[5],
            skip_field_syntax_enabled: f[6],
            spectral_extension_attenuation_enabled: f[7],
        },
    )
}

/// Coupling strategy of blocks `b..num_blocks` appended to the update and in-use flags.
pub open spec fn spec_coupling_rest(
    c: BitCursor,
    b: nat,
    num_blocks: nat,
    updates: Seq<bool>,
    in_use: Seq<bool>,
) -> Result<(Seq<bool>, Seq<bool>, BitCursor), ParseError>
    decreases num_blocks - b,
{
    if b >= num_blocks {
        Ok((updates, in_use, c))
    } else {
        match sflag(c) {
            Err(e) => Err(e),
            Ok((update, c1)) => if update {
                match sflag(c1) {
                    Err(e) => Err(e),
                    Ok((u, c2)) => spec_coupling_rest(
                        c2,
                        b + 1,
                        num_blocks,
                        updates.push(true),
                        in_use.push(u),
                    ),
                }
            } else {
                spec_coupling_rest(
                    c1,
                    b + 1,
                    num_blocks,
                    updates.push(false),
                    in_use.push(in_use.last()),
                )
            },
        }
    }
}

/// Per-block coupling strategy flags (`cplstre`, `cplinu`); none below two channels.
#[verifier::opaque]
pub open spec fn spec_coupling_strategy(c: BitCursor, num_blocks: nat, channel_mode: u8) -> Result<
    (Seq<bool>, Seq<bool>, BitCursor),
    ParseError,
> {
    if channel_mode > 1 {
        match sflag(c) {
            Err(e) => Err(e),
            Ok((u, c1)) => spec_coupling_rest(c1, 1, num_blocks, seq![true], seq![u]),
        }
    } else {
        Ok((Seq::new(num_blocks, |i: int| false), Seq::new(num_blocks, |i: int| false), c))
    }
}

pub fn read_coupling_strategy_flags(r: &mut BitReader, num_blocks: usize, channel_mode: u8) -> (res: Result<
    (Vec<bool>, Vec<bool>),
    ParseError,
>)
    requires
        old(r).wf(),
        num_blocks >= 1,
    ensures
        final(r).wf(),
        match spec_coupling_strategy(old(r)@, num_blocks as nat, channel_mode) {
            Ok((u, i, c)) => res matches Ok((ru, ri)) && ru@ == u && ri@ == i && final(r)@ == c,
            Err(e) => res matches Err(re) && re == e,
        },
        res matches Ok((ru, ri)) ==> ru@.len() == num_blocks && ri@.len() == num_blocks,
{
    reveal(spec_coupling_strategy);
    let mut updates: Vec<bool> = Vec::new();
    let mut in_use: Vec<bool> = Vec::new();
    if channel_mode > 1 {
        let u = rflag(r)?;
        updates.push(true);
        in_use.push(u);
        assert(updates@ == seq![true]);
        assert(in_use@ == seq![u]);
        let ghost c1 = r@;
        let mut b: usize = 1;
        while b < num_blocks
            invariant
                r.wf(),
                1 <= b <= num_blocks,
                updates@.len() == b,
                in_use@.len() == b,
                spec_coupling_strategy(old(r)@, num_blocks as nat, channel_mode)
                    == spec_coupling_rest(r@, b as nat, num_blocks as nat, updates@, in_use@),
            decreases num_blocks - b,
        {
            let update = rflag(r)?;
            if update {
                let v = rflag(r)?;
                updates.push(true);
                in_use.push(v);
            } else {
                let prev = in_use[b - 1];
                updates.push(false);
                in_use.push(prev);
            }
            b = b + 1;
        }
    } else {
        let mut b: usize = 0;
        while b < num_blocks
            invariant
                b <= num_blocks,
                updates@ == Seq::new(b as nat, |i: int| false),
                in_use@ == Seq::new(b as nat, |i: int| false),
            decreases num_blocks - b,
        {
            updates.push(false);
            in_use.push(false);
            b = b + 1;
            assert(updates@ =~= Seq::new(b as nat, |i: int| false));
            assert(in_use@ =~= Seq::new(b as nat, |i: int| false));
        }
    }
    Ok((updates, in_use))
}

} // verus!

verus! {

/// Exponent strategies of channels `ch..count` in one block, each coded in two bits.
pub open spec fn spec_channel_exps_rest(c: BitCursor, ch: nat, count: nat, acc: Seq<ExpStrategy>) -> Result<
    (Seq<ExpStrategy>, BitCursor),
    ParseError,
>
    decreases count - ch,
{
    if ch >= count {
        Ok((acc, c))
    } else {
        match sread(c, 2) {
            Err(e) => Err(e),
            Ok((v, c1)) => match spec_exp_from_bits(v) {
                Err(e) => Err(e),
                Ok(s) => spec_channel_exps_rest(c1, ch + 1, count, acc.push(s)),
            },
        }
    }
}

/// Coupling exponent strategy of one block: two bits when coupling is in use.
pub open spec fn spec_block_cpl_exp(c: BitCursor, in_use: bool) -> Result<
    (Option<ExpStrategy>, BitCursor),
    ParseError,
> {
    if in_use {
        match sread(c, 2) {
            Err(e) => Err(e),
            Ok((v, c1)) => match spec_exp_from_bits(v) {
                Err(e) => Err(e),
                Ok(s) => Ok((Some(s), c1)),
            },
        }
    } else {
        Ok((None, c))
    }
}

/// Exponent strategies embedded per block (`expstre` set), for blocks `b..num_blocks`.
pub open spec fn spec_exp_embedded_rest(
    c: BitCursor,
    b: nat,
    num_blocks: nat,
    channels: nat,
    in_use: Seq<bool>,
    cpl_acc: Seq<Option<ExpStrategy>>,
    ch_acc: Seq<Seq<ExpStrategy>>,
) -> Result<(Seq<Option<ExpStrategy>>, Seq<Seq<ExpStrategy>>, BitCursor), ParseError>
    decreases num_blocks - b,
{
    if b >= num_blocks {
        Ok((cpl_acc, ch_acc, c))
    } else {
        match spec_block_cpl_exp(c, in_use[b as int]) {
            Err(e) => Err(e),
            Ok((cs, c1)) => match spec_channel_exps_rest(c1, 0, channels, Seq::empty()) {
                Err(e) => Err(e),
                Ok((row, c2)) => spec_exp_embedded_rest(
                    c2,
                    b + 1,
                    num_blocks,
                    channels,
                    in_use,
                    cpl_acc.push(cs),
                    ch_acc.push(row),
                ),
            },
        }
    }
}

/// `count - k` more fields of `width` bits each, appended to `acc`.
pub open spec fn spec_codes_rest(c: BitCursor, k: nat, count: nat, width: nat, acc: Seq<u8>) -> Result<
    (Seq<u8>, BitCursor),
    ParseError,
>
    decreases count - k,
{
    if k >= count {
        Ok((acc, c))
    } else {
        match sread(c, width) {
            Err(e) => Err(e),
            Ok((v, c1)) => spec_codes_rest(c1, k + 1, count, width, acc.push(v as u8)),
        }
    }
}

/// Strategy chosen by a frame exponent strategy code; the code and block are in range.
pub open spec fn spec_frame_exp(code: u8, block: int) -> ExpStrategy {
    spec_exp_from_frame_code(code as nat, block as nat)->Ok_0
}

/// Exponent strategies coded once per frame (`expstre` clear).
pub open spec fn spec_exp_frame_coded(
    c: BitCursor,
    num_blocks: nat,
    channels: nat,
    channel_mode: u8,
    in_use: Seq<bool>,
) -> Result<(Seq<Option<ExpStrategy>>, Seq<Seq<ExpStrategy>>, BitCursor), ParseError> {
    let cpl_code: Result<(Option<u8>, BitCursor), ParseError> = if channel_mode > 1
        && in_use.contains(true) {
        match sread(c, 5) {
            Err(e) => Err(e),
            Ok((v, c1)) => Ok((Some(v as u8), c1)),
        }
    } else {
        Ok((None, c))
    };
    match cpl_code {
        Err(e) => Err(e),
        Ok((cc, c1)) => match spec_codes_rest(c1, 0, channels, 5, Seq::empty()) {
            Err(e) => Err(e),
            Ok((codes, c2)) => Ok(
                (
                    Seq::new(
                        num_blocks,
                        |b: int|
                            if in_use[b] && cc is Some {
                                Some(spec_frame_exp(cc->Some_0, b))
                            } else {
                                None
                            },
                    ),
                    Seq::new(
                        num_blocks,
                        |b: int| Seq::new(channels, |ch: int| spec_frame_exp(codes[ch], b)),
                    ),
                    c2,
                ),
            ),
        },
    }
}

/// Coupling and channel exponent strategies of every block.
#[verifier::opaque]
pub open spec fn spec_exp_strategies(
    c: BitCursor,
    embedded: bool,
    num_blocks: nat,
    channels: nat,
    channel_mode: u8,
    in_use: Seq<bool>,
) -> Result<(Seq<Option<ExpStrategy>>, Seq<Seq<ExpStrategy>>, BitCursor), ParseError> {
    if embedded {
        spec_exp_embedded_rest(c, 0, num_blocks, channels, in_use, Seq::empty(), Seq::empty())
    } else {
        spec_exp_frame_coded(c, num_blocks, channels, channel_mode, in_use)
    }
}

fn read_channel_exps(r: &mut BitReader, channels: usize) -> (res: Result<
    Vec<ExpStrategy>,
    ParseError,
>)
    requires
        old(r).wf(),
    ensures
        final(r).wf(),
        match spec_channel_exps_rest(old(r)@, 0, channels as nat, Seq::empty()) {
            Ok((row, c)) => res matches Ok(v) && v@ == row && final(r)@ == c,
            Err(e) => res matches Err(re) && re == e,
        },
        res matches Ok(v) ==> v@.len() == channels,
{
    let mut row: Vec<ExpStrategy> = Vec::new();
    let mut ch: usize = 0;
    proof {
        lemma2_to64();
    }
    while ch < channels
        invariant
            r.wf(),
            pow2(2) == 4,
            ch <= channels,
            row@.len() == ch,
            spec_channel_exps_rest(old(r)@, 0, channels as nat, Seq::empty())
                == spec_channel_exps_rest(r@, ch as nat, channels as nat, row@),
        decreases channels - ch,
    {
        let v = rd(r, 2)?;
        let s = ExpStrategy::from_bits(v)?;
        row.push(s);
        ch = ch + 1;
    }
    Ok(row)
}

fn read_block_cpl_exp(r: &mut BitReader, in_use: bool) -> (res: Result<
    Option<ExpStrategy>,
    ParseError,
>)
    requires
        old(r).wf(),
    ensures
        final(r).wf(),
        match spec_block_cpl_exp(old(r)@, in_use) {
            Ok((s, c)) => res == Ok::<Option<ExpStrategy>, ParseError>(s) && final(r)@ == c,
            Err(e) => res == Err::<Option<ExpStrategy>, ParseError>(e),
        },
{
    proof {
        lemma2_to64();
    }
    if in_use {
        let v = rd(r, 2)?;
        Ok(Some(ExpStrategy::from_bits(v)?))
    } else {
        Ok(None)
    }
}

/// View of a vector of per-block strategy rows.
pub open spec fn rows_view(v: Seq<Vec<ExpStrategy>>) -> Seq<Seq<ExpStrategy>> {
    v.map_values(|row: Vec<ExpStrategy>| row@)
}

fn read_exp_embedded(
    r: &mut BitReader,
    num_blocks: usize,
    channels: usize,
    in_use: &Vec<bool>,
) -> (res: Result<(Vec<Option<ExpStrategy>>, Vec<Vec<ExpStrategy>>), ParseError>)
    requires
        old(r).wf(),
        in_use@.len() == num_blocks,
    ensures
        final(r).wf(),
        match spec_exp_embedded_rest(
            old(r)@,
            0,
            num_blocks as nat,
            channels as nat,
            in_use@,
            Seq::empty(),
            Seq::empty(),
        ) {
            Ok((cpl, ch, c)) => res matches Ok((rc, rh)) && rc@ == cpl && rows_view(rh@) == ch
                && final(r)@ == c,
            Err(e) => res matches Err(re) && re == e,
        },
        res matches Ok((rc, rh)) ==> rc@.len() == num_blocks && rh@.len() == num_blocks && forall|
            i: int,
        | 0 <= i < num_blocks ==> rh@[i]@.len() == channels,
{
    let mut cpl: Vec<Option<ExpStrategy>> = Vec::new();
    let mut rows: Vec<Vec<ExpStrategy>> = Vec::new();
    let mut b: usize = 0;
    assert(rows_view(rows@) =~= Seq::empty());
    while b < num_blocks
        invariant
            r.wf(),
            b <= num_blocks,
            in_use@.len() == num_blocks,
            cpl@.len() == b,
            rows@.len() == b,
            forall|i: int| 0 <= i < b ==> rows@[i]@.len() == channels,
            spec_exp_embedded_rest(
                old(r)@,
                0,
                num_blocks as nat,
                channels as nat,
                in_use@,
                Seq::empty(),
                Seq::empty(),
            ) == spec_exp_embedded_rest(
                r@,
                b as nat,
                num_blocks as nat,
                channels as nat,
                in_use@,
                cpl@,
                rows_view(rows@),
            ),
        decreases num_blocks - b,
    {
        let cs = read_block_cpl_exp(r, in_use[b])?;
        let row = read_channel_exps(r, channels)?;
        let ghost old_rows = rows@;
        let ghost row_view = row@;
        cpl.push(cs);
        rows.push(row);
        assert(rows_view(rows@) =~= rows_view(old_rows).push(row_view));
        b = b + 1;
    }
    Ok((cpl, rows))
}

fn read_codes(r: &mut BitReader, count: usize, width: usize) -> (res: Result<Vec<u8>, ParseError>)
    requires
        old(r).wf(),
        width <= 8,
    ensures
        final(r).wf(),
        match spec_codes_rest(old(r)@, 0, count as nat, width as nat, Seq::empty()) {
            Ok((codes, c)) => res matches Ok(v) && v@ == codes && final(r)@ == c,
            Err(e) => res matches Err(re) && re == e,
        },
        res matches Ok(v) ==> v@.len() == count && forall|i: int|
            0 <= i < count ==> (v@[i] as int) < pow2(width as nat),
{
    let mut codes: Vec<u8> = Vec::new();
    let mut k: usize = 0;
    proof {
        lemma2_to64();
        if width < 8 {
            vstd::arithmetic::power2::lemma_pow2_strictly_increases(width as nat, 8);
        }
    }
    while k < count
        invariant
            r.wf(),
            k <= count,
            width <= 8,
            pow2(width as nat) <= 256,
            codes@.len() == k,
            forall|i: int| 0 <= i < k ==> (codes@[i] as int) < pow2(width as nat),
            spec_codes_rest(old(r)@, 0, count as nat, width as nat, Seq::empty())
                == spec_codes_rest(r@, k as nat, count as nat, width as nat, codes@),
        decreases count - k,
    {
        let v = rd(r, width)?;
        codes.push(v as u8);
        k = k + 1;
    }
    Ok(codes)
}

fn any_true(v: &Vec<bool>) -> (r: bool)
    ensures
        r == v@.contains(true),
{
    let mut i: usize = 0;
    while i < v.len()
        invariant
            i <= v@.len(),
            forall|j: int| 0 <= j < i ==> !v@[j],
        decreases v@.len() - i,
    {
        if v[i] {
            assert(v@[i as int] == true);
            return true;
        }
        i = i + 1;
    }
    false
}

fn read_exp_frame_coded(
    r: &mut BitReader,
    num_blocks: usize,
    channels: usize,
    channel_mode: u8,
    in_use: &Vec<bool>,
) -> (res: Result<(Vec<Option<ExpStrategy>>, Vec<Vec<ExpStrategy>>), ParseError>)
    requires
        old(r).wf(),
        in_use@.len() == num_blocks,
        num_blocks <= 6,
    ensures
        final(r).wf(),
        match spec_exp_frame_coded(
            old(r)@,
            num_blocks as nat,
            channels as nat,
            channel_mode,
            in_use@,
        ) {
            Ok((cpl, ch, c)) => res matches Ok((rc, rh)) && rc@ == cpl && rows_view(rh@) == ch
                && final(r)@ == c,
            Err(e) => res matches Err(re) && re == e,
        },
        res matches Ok((rc, rh)) ==> rc@.len() == num_blocks && rh@.len() == num_blocks && forall|
            i: int,
        | 0 <= i < num_blocks ==> rh@[i]@.len() == channels,
{
    proof {
        lemma2_to64();
    }
    let cpl_code: Option<u8> = if channel_mode > 1 && any_true(in_use) {
        Some(rd(r, 5)? as u8)
    } else {
        None
    };
    let codes = read_codes(r, channels, 5)?;
    let mut cpl: Vec<Option<ExpStrategy>> = Vec::new();
    let mut rows: Vec<Vec<ExpStrategy>> = Vec::new();
    let mut b: usize = 0;
    while b < num_blocks
        invariant
            b <= num_blocks,
            num_blocks <= 6,
            in_use@.len() == num_blocks,
            codes@.len() == channels,
            forall|i: int| 0 <= i < channels ==> codes@[i] < 32,
            cpl_code matches Some(cc) ==> cc < 32,
            cpl@.len() == b,
            rows@.len() == b,
            forall|i: int|
                0 <= i < b ==> cpl@[i] == (if in_use@[i] && cpl_code is Some {
                    Some(spec_frame_exp(cpl_code->Some_0, i))
                } else {
                    None
                }),
            forall|i: int|
                0 <= i < b ==> rows@[i]@ == Seq::new(
                    channels as nat,
                    |ch: int| spec_frame_exp(codes@[ch], i),
                ),
        decreases num_blocks - b,
    {
        let cs = if in_use[b] {
            match cpl_code {
                Some(code) => Some(ExpStrategy::from_frame_code(code, b)?),
                None => None,
            }
        } else {
            None
        };
        let mut row: Vec<ExpStrategy> = Vec::new();
        let mut ch: usize = 0;
        while ch < channels
            invariant
                ch <= channels,
                b < num_blocks,
                num_blocks <= 6,
                codes@.len() == channels,
                forall|i: int| 0 <= i < channels ==> codes@[i] < 32,
                row@.len() == ch,
                forall|j: int| 0 <= j < ch ==> row@[j] == spec_frame_exp(codes@[j], b as int),
            decreases channels - ch,
        {
            let s = ExpStrategy::from_frame_code(codes[ch], b)?;
            row.push(s);
            ch = ch + 1;
        }
        assert(row@ =~= Seq::new(channels as nat, |c: int| spec_frame_exp(codes@[c], b as int)));
        cpl.push(cs);
        rows.push(row);
        b = b + 1;
    }
    assert(rows_view(rows@) =~= Seq::new(
        num_blocks as nat,
        |b: int| Seq::new(channels as nat, |ch: int| spec_frame_exp(codes@[ch], b)),
    ));
    assert(cpl@ =~= Seq::new(
        num_blocks as nat,
        |b: int|
            if in_use@[b] && cpl_code is Some {
                Some(spec_frame_exp(cpl_code->Some_0, b))
            } else {
                None
            },
    ));
    Ok((cpl, rows))
}

/// Reads the coupling and channel exponent strategies of every block.
pub fn read_exp_strategies(
    r: &mut BitReader,
    embedded: bool,
    num_blocks: usize,
    channels: usize,
    channel_mode: u8,
    in_use: &Vec<bool>,
) -> (res: Result<(Vec<Option<ExpStrategy>>, Vec<Vec<ExpStrategy>>), ParseError>)
    requires
        old(r).wf(),
        in_use@.len() == num_blocks,
        num_blocks <= 6,
    ensures
        final(r).wf(),
        match spec_exp_strategies(
            old(r)@,
            embedded,
            num_blocks as nat,
            channels as nat,
            channel_mode,
            in_use@,
        ) {
            Ok((cpl, ch, c)) => res matches Ok((rc, rh)) && rc@ == cpl && rows_view(rh@) == ch
                && final(r)@ == c,
            Err(e) => res matches Err(re) && re == e,
        },
        res matches Ok((rc, rh)) ==> rc@.len() == num_blocks && rh@.len() == num_blocks && forall|
            i: int,
        | 0 <= i < num_blocks ==> rh@[i]@.len() == channels,
{
    reveal(spec_exp_strategies);
    if embedded {
        read_exp_embedded(r, num_blocks, channels, in_use)
    } else {
        read_exp_frame_coded(r, num_blocks, channels, channel_mode, in_use)
    }
}

} // verus!

verus! {

/// LFE exponent strategy flags, one per block when the LFE channel is on.
#[verifier::opaque]
pub open spec fn spec_lfe_strategies(c: BitCursor, lfe_on: bool, num_blocks: nat) -> Result<
    (Seq<bool>, BitCursor),
    ParseError,
> {
    if lfe_on {
        spec_flags_rest(c, num_blocks, Seq::empty())
    } else {
        Ok((Seq::empty(), c))
    }
}

/// Whether converter exponent strategies follow (independent frames only).
#[verifier::opaque]
pub open spec fn spec_converter_present(c: BitCursor, frame_type: FrameType, num_blocks: nat) -> Result<
    (bool, BitCursor),
    ParseError,
> {
    if frame_type == FrameType::Independent {
        if num_blocks == 6 {
            Ok((true, c))
        } else {
            sflag(c)
        }
    } else {
        Ok((false, c))
    }
}

/// Frame-level SNR offsets, present for SNR offset strategy 0.
#[verifier::opaque]
pub open spec fn spec_frame_snr(c: BitCursor, strategy: u8) -> Result<
    (Option<u8>, Option<u8>, BitCursor),
    ParseError,
> {
    if strategy == 0 {
        match sread(c, 6) {
            Err(e) => Err(e),
            Ok((csnr, c1)) => match sread(c1, 4) {
                Err(e) => Err(e),
                Ok((fsnr, c2)) => Ok((Some(csnr as u8), Some(fsnr as u8), c2)),
            },
        }
    } else {
        Ok((None, None, c))
    }
}

/// Transient pre-noise processing fields of channels `k..count`.
pub open spec fn spec_transients_rest(
    c: BitCursor,
    k: nat,
    count: nat,
    acc: Seq<Option<TransientProcessorInfo>>,
) -> Result<(Seq<Option<TransientProcessorInfo>>, BitCursor), ParseError>
    decreases count - k,
{
    if k >= count {
        Ok((acc, c))
    } else {
        match sflag(c) {
            Err(e) => Err(e),
            Ok((present, c1)) => if present {
                match sread(c1, 10) {
                    Err(e) => Err(e),
                    Ok((location, c2)) => match sread(c2, 8) {
                        Err(e) => Err(e),
                        Ok((length, c3)) => spec_transients_rest(
                            c3,
                            k + 1,
                            count,
                            acc.push(
                                Some(
                                    TransientProcessorInfo {
                                        location: location as u16,
                                        length: length as u8,
                                    },
                                ),
                            ),
                        ),
                    },
                }
            } else {
                spec_transients_rest(c1, k + 1, count, acc.push(None))
            },
        }
    }
}

/// Spectral extension attenuation codes of channels `k..count`.
pub open spec fn spec_attenuation_rest(c: BitCursor, k: nat, count: nat, acc: Seq<Option<u8>>) -> Result<
    (Seq<Option<u8>>, BitCursor),
    ParseError,
>
    decreases count - k,
{
    if k >= count {
        Ok((acc, c))
    } else {
        match sflag(c) {
            Err(e) => Err(e),
            Ok((present, c1)) => if present {
                match sread(c1, 5) {
                    Err(e) => Err(e),
                    Ok((v, c2)) => spec_attenuation_rest(c2, k + 1, count, acc.push(Some(v as u8))),
                }
            } else {
                spec_attenuation_rest(c1, k + 1, count, acc.push(None))
            },
        }
    }
}

/// Ceiling of the base-2 logarithm (0 for 0 and 1).
pub open spec fn spec_log2_ceil(value: nat) -> nat
    decreases value,
{
    if value <= 1 {
        0
    } else {
        1 + spec_log2_ceil(((value + 1) / 2) as nat)
    }
}

/// `spec_log2_ceil(v)` is the least `k` with `v <= 2^k`.
pub proof fn lemma_log2_ceil_bounds(value: nat)
    requires
        value >= 1,
    ensures
        value <= pow2(spec_log2_ceil(value)),
        spec_log2_ceil(value) > 0 ==> pow2((spec_log2_ceil(value) - 1) as nat) < value,
    decreases value,
{
    if value <= 1 {
        lemma2_to64();
    } else {
        let h = ((value + 1) / 2) as nat;
        lemma_log2_ceil_bounds(h);
        let k = spec_log2_ceil(h);
        vstd::arithmetic::power2::lemma_pow2_unfold(k + 1);
        assert(((k + 1) - 1) as nat == k);
        if k > 0 {
            vstd::arithmetic::power2::lemma_pow2_unfold(k);
        } else {
            lemma2_to64();
        }
    }
}

/// Ceiling of the base-2 logarithm: the least `k` with `value <= 2^k` (0 for 0 and 1).
pub fn log2_ceil(value: usize) -> (k: usize)
    ensures
        k == spec_log2_ceil(value as nat),
        value >= 1 ==> value <= pow2(k as nat),
        k > 0 ==> pow2((k - 1) as nat) < value,
{
    let mut k: usize = 0;
    let mut x: usize = value;
    proof {
        if value >= 2 {
            lemma_log2_ceil_bounds(value as nat);
            let l = spec_log2_ceil(value as nat);
            if l > 65 {
                vstd::arithmetic::power2::lemma_pow2_strictly_increases(64, (l - 1) as nat);
            }
            if l > 64 {
                vstd::arithmetic::power2::lemma2_to64_rest();
            }
        }
    }
    while x > 1
        invariant
            k + spec_log2_ceil(x as nat) == spec_log2_ceil(value as nat),
            spec_log2_ceil(value as nat) <= 64,
        decreases x,
    {
        x = x / 2 + x % 2;
        k = k + 1;
    }
    proof {
        if value >= 1 {
            lemma_log2_ceil_bounds(value as nat);
        }
    }
    k
}

/// Block start offsets are usable: at least one, strictly increasing, all inside the frame.
pub open spec fn spec_block_offsets_valid(offsets: Seq<usize>, frame_bits: usize) -> bool {
    &&& offsets.len() > 0
    &&& forall|i: int| 0 <= i < offsets.len() ==> offsets[i] < frame_bits
    &&& forall|i: int, j: int| 0 <= i < j < offsets.len() ==> offsets[i] < offsets[j]
}

/// Checks that block start offsets are nonempty, strictly increasing and inside the frame.
pub fn block_start_offsets_are_valid(offsets: &[usize], frame_bits: usize) -> (b: bool)
    ensures
        b == spec_block_offsets_valid(offsets@, frame_bits),
{
    if offsets.len() == 0 || offsets[0] >= frame_bits {
        return false;
    }
    let mut previous = offsets[0];
    let mut i: usize = 1;
    while i < offsets.len()
        invariant
            1 <= i <= offsets@.len(),
            previous == offsets@[i - 1],
            forall|k: int| 0 <= k < i ==> offsets@[k] < frame_bits,
            forall|a: int, b: int| 0 <= a < b < i ==> offsets@[a] < offsets@[b],
        decreases offsets@.len() - i,
    {
        let offset = offsets[i];
        if offset <= previous || offset >= frame_bits {
            return false;
        }
        previous = offset;
        i = i + 1;
    }
    true
}

} // verus!

verus! {

/// `count - k` more unsigned fields of `width` bits, as bit offsets.
pub open spec fn spec_offsets_rest(c: BitCursor, k: nat, count: nat, width: nat, acc: Seq<usize>) -> Result<
    (Seq<usize>, BitCursor),
    ParseError,
>
    decreases count - k,
{
    if k >= count {
        Ok((acc, c))
    } else {
        match sread(c, width) {
            Err(e) => Err(e),
            Ok((v, c1)) => spec_offsets_rest(c1, k + 1, count, width, acc.push(v as usize)),
        }
    }
}

/// Block start information: presence, its size in bits, and the block start bit offsets when
/// they are usable (the first block starts right after the field).
#[verifier::opaque]
pub open spec fn spec_block_start(c: BitCursor, num_blocks: nat, words_per_syncframe: nat) -> Result<
    (bool, nat, Option<Seq<usize>>, BitCursor),
    ParseError,
> {
    if num_blocks == 1 {
        Ok((false, 0, None, c))
    } else {
        match sflag(c) {
            Err(e) => Err(e),
            Ok((present, c1)) => if !present {
                Ok((false, 0, None, c1))
            } else {
                let width = 4 + spec_log2_ceil(words_per_syncframe);
                match spec_offsets_rest(c1, 1, num_blocks, width, Seq::empty()) {
                    Err(e) => Err(e),
                    Ok((offsets, c2)) => {
                        let resolved = seq![c2.pos as usize] + offsets;
                        Ok(
                            (
                                true,
                                ((num_blocks - 1) * width) as nat,
                                if spec_block_offsets_valid(
                                    resolved,
                                    (words_per_syncframe * 16) as usize,
                                ) {
                                    Some(resolved)
                                } else {
                                    None
                                },
                                c2,
                            ),
                        )
                    },
                }
            },
        }
    }
}

/// Fields after the exponent strategies: LFE strategies, converter strategies, frame SNR
/// offsets, transient processing, spectral extension attenuation and block start information.
pub struct AudioFrameTail {
    pub lfe_exponent_strategy: Seq<bool>,
    pub converter_exponent_strategy_present: bool,
    pub converter_exponent_strategy: Seq<u8>,
    pub frame_csnr_offset: Option<u8>,
    pub frame_fsnr_offset: Option<u8>,
    pub transient_processors: Seq<Option<TransientProcessorInfo>>,
    pub spectral_extension_attenuation: Seq<Option<u8>>,
    pub block_start_info_present: bool,
    pub block_start_info_bit_len: nat,
    pub block_start_bit_offsets: Option<Seq<usize>>,
}

/// Transient processing fields, or none at all when disabled.
#[verifier::opaque]
pub open spec fn spec_transients(c: BitCursor, enabled: bool, channels: nat) -> Result<
    (Seq<Option<TransientProcessorInfo>>, BitCursor),
    ParseError,
> {
    if enabled {
        spec_transients_rest(c, 0, channels, Seq::empty())
    } else {
        Ok((Seq::new(channels, |i: int| None), c))
    }
}

/// Spectral extension attenuation fields, or none at all when disabled.
#[verifier::opaque]
pub open spec fn spec_attenuation(c: BitCursor, enabled: bool, channels: nat) -> Result<
    (Seq<Option<u8>>, BitCursor),
    ParseError,
> {
    if enabled {
        spec_attenuation_rest(c, 0, channels, Seq::empty())
    } else {
        Ok((Seq::new(channels, |i: int| None), c))
    }
}

/// Converter exponent strategies: a five-bit code per channel when present.
#[verifier::opaque]
pub open spec fn spec_converter(c: BitCursor, present: bool, channels: nat) -> Result<
    (Seq<u8>, BitCursor),
    ParseError,
> {
    if present {
        spec_codes_rest(c, 0, channels, 5, Seq::empty())
    } else {
        Ok((Seq::empty(), c))
    }
}

#[verifier::opaque]
pub open spec fn spec_audio_tail(
    c: BitCursor,
    flags: AudioFrameFlags,
    frame_type: FrameType,
    words_per_syncframe: nat,
    num_blocks: nat,
    channels: nat,
    lfe_on: bool,
) -> Result<(AudioFrameTail, BitCursor), ParseError> {
    match spec_lfe_strategies(c, lfe_on, num_blocks) {
        Err(e) => Err(e),
        Ok((lfe, c1)) => match spec_converter_present(c1, frame_type, num_blocks) {
            Err(e) => Err(e),
            Ok((conv_present, c2)) => match spec_converter(c2, conv_present, channels) {
                Err(e) => Err(e),
                Ok((conv, c3)) => match spec_frame_snr(c3, flags.snr_offset_strategy) {
                    Err(e) => Err(e),
                    Ok((csnr, fsnr, c4)) => match spec_transients(
                        c4,
                        flags.transient_processing_enabled,
                        channels,
                    ) {
                        Err(e) => Err(e),
                        Ok((transients, c5)) => match spec_attenuation(
                            c5,
                            flags.spectral_extension_attenuation_enabled,
                            channels,
                        ) {
                            Err(e) => Err(e),
                            Ok((atten, c6)) => match spec_block_start(
                                c6,
                                num_blocks,
                                words_per_syncframe,
                            ) {
                                Err(e) => Err(e),
                                Ok((bs_present, bs_len, offsets, c7)) => Ok(
                                    (
                                        AudioFrameTail {
                                            lfe_exponent_strategy: lfe,
                                            converter_exponent_strategy_present: conv_present,
                                            converter_exponent_strategy: conv,
                                            frame_csnr_offset: csnr,
                                            frame_fsnr_offset: fsnr,
                                            transient_processors: transients,
                                            spectral_extension_attenuation: atten,
                                            block_start_info_present: bs_present,
                                            block_start_info_bit_len: bs_len,
                                            block_start_bit_offsets: offsets,
                                        },
                                        c7,
                                    ),
                                ),
                            },
                        },
                    },
                },
            },
        },
    }
}

/// The frame-level audio syntax `audfrm`: the parsed fields, the usable block start offsets,
/// and the cursor at the first audio block.
#[verifier::opaque]
pub open spec fn spec_audio_frame(
    c: BitCursor,
    frame_type: FrameType,
    words_per_syncframe: nat,
    num_blocks: nat,
    channel_mode: u8,
    channels: nat,
    lfe_on: bool,
) -> Result<(AudioFrameModel, Option<Seq<usize>>, BitCursor), ParseError> {
    match spec_audio_flags(c, num_blocks) {
        Err(e) => Err(e),
        Ok((flags, c1)) => match spec_coupling_strategy(c1, num_blocks, channel_mode) {
            Err(e) => Err(e),
            Ok((updates, in_use, c2)) => match spec_exp_strategies(
                c2,
                flags.exponent_strategies_embedded,
                num_blocks,
                channels,
                channel_mode,
                in_use,
            ) {
                Err(e) => Err(e),
                Ok((cpl_exp, ch_exp, c3)) => match spec_audio_tail(
                    c3,
                    flags,
                    frame_type,
                    words_per_syncframe,
                    num_blocks,
                    channels,
                    lfe_on,
                ) {
                    Err(e) => Err(e),
                    Ok((t, c4)) => Ok(
                        (
                            AudioFrameModel {
                                exponent_strategies_embedded: flags.exponent_strategies_embedded,
                                adaptive_hybrid_transform_enabled: false,
                                snr_offset_strategy: flags.snr_offset_strategy,
                                transient_processing_enabled: flags.transient_processing_enabled,
                                block_switching_enabled: flags.block_switching_enabled,
                                dithering_enabled: flags.dithering_enabled,
                                bit_allocation_mode_enabled: flags.bit_allocation_mode_enabled,
                                frame_gain_syntax_enabled: flags.frame_gain_syntax_enabled,
                                delta_bit_allocation_enabled: flags.delta_bit_allocation_enabled,
                                skip_field_syntax_enabled: flags.skip_field_syntax_enabled,
                                spectral_extension_attenuation_enabled:
                                    flags.spectral_extension_attenuation_enabled,
                                coupling_strategy_updates: updates,
                                coupling_in_use: in_use,
                                coupling_exponent_strategy: cpl_exp,
                                channel_exponent_strategy: ch_exp,
                                lfe_exponent_strategy: t.lfe_exponent_strategy,
                                converter_exponent_strategy_present:
                                    t.converter_exponent_strategy_present,
                                converter_exponent_strategy: t.converter_exponent_strategy,
                                frame_csnr_offset: t.frame_csnr_offset,
                                frame_fsnr_offset: t.frame_fsnr_offset,
                                transient_processors: t.transient_processors,
                                spectral_extension_attenuation: t.spectral_extension_attenuation,
                                block_start_info_present: t.block_start_info_present,
                                block_start_info_bit_len: t.block_start_info_bit_len as int,
                                block_payload_start_bit_offset: c4.pos,
                            },
                            t.block_start_bit_offsets,
                            c4,
                        ),
                    ),
                },
            },
        },
    }
}

fn read_lfe_strategies(r: &mut BitReader, lfe_on: bool, num_blocks: usize) -> (res: Result<
    Vec<bool>,
    ParseError,
>)
    requires
        old(r).wf(),
    ensures
        final(r).wf(),
        match spec_lfe_strategies(old(r)@, lfe_on, num_blocks as nat) {
            Ok((v, c)) => res matches Ok(rv) && rv@ == v && final(r)@ == c,
            Err(e) => res matches Err(re) && re == e,
        },
{
    reveal(spec_lfe_strategies);
    if lfe_on {
        read_flags(r, num_blocks)
    } else {
        Ok(Vec::new())
    }
}

fn read_converter(r: &mut BitReader, frame_type: FrameType, num_blocks: usize, channels: usize) -> (res: Result<
    (bool, Vec<u8>),
    ParseError,
>)
    requires
        old(r).wf(),
    ensures
        final(r).wf(),
        match spec_converter_present(old(r)@, frame_type, num_blocks as nat) {
            Err(e) => res matches Err(re) && re == e,
            Ok((p, c1)) => match spec_converter(c1, p, channels as nat) {
                Ok((v, c)) => res matches Ok((rp, rv)) && rp == p && rv@ == v && final(r)@ == c,
                Err(e) => res matches Err(re) && re == e,
            },
        },
{
    reveal(spec_converter_present);
    reveal(spec_converter);
    let present = if matches!(frame_type, FrameType::Independent) {
        if num_blocks == 6 {
            true
        } else {
            rflag(r)?
        }
    } else {
        false
    };
    if present {
        let codes = read_codes(r, channels, 5)?;
        Ok((true, codes))
    } else {
        Ok((false, Vec::new()))
    }
}

fn read_frame_snr(r: &mut BitReader, strategy: u8) -> (res: Result<
    (Option<u8>, Option<u8>),
    ParseError,
>)
    requires
        old(r).wf(),
    ensures
        final(r).wf(),
        match spec_frame_snr(old(r)@, strategy) {
            Ok((a, b, c)) => res == Ok::<(Option<u8>, Option<u8>), ParseError>((a, b))
                && final(r)@ == c,
            Err(e) => res == Err::<(Option<u8>, Option<u8>), ParseError>(e),
        },
{
    reveal(spec_frame_snr);
    proof {
        lemma2_to64();
    }
    if strategy == 0 {
        let csnr = rd(r, 6)? as u8;
        let fsnr = rd(r, 4)? as u8;
        Ok((Some(csnr), Some(fsnr)))
    } else {
        Ok((None, None))
    }
}

fn read_transients(r: &mut BitReader, enabled: bool, channels: usize) -> (res: Result<
    Vec<Option<TransientProcessorInfo>>,
    ParseError,
>)
    requires
        old(r).wf(),
    ensures
        final(r).wf(),
        match spec_transients(old(r)@, enabled, channels as nat) {
            Ok((v, c)) => res matches Ok(rv) && rv@ == v && final(r)@ == c,
            Err(e) => res matches Err(re) && re == e,
        },
{
    reveal(spec_transients);
    let mut out: Vec<Option<TransientProcessorInfo>> = Vec::new();
    let mut k: usize = 0;
    proof {
        lemma2_to64();
    }
    if !enabled {
        while k < channels
            invariant
                k <= channels,
                out@ == Seq::new(k as nat, |i: int| None::<TransientProcessorInfo>),
            decreases channels - k,
        {
            out.push(None);
            k = k + 1;
            assert(out@ =~= Seq::new(k as nat, |i: int| None::<TransientProcessorInfo>));
        }
        return Ok(out);
    }
    while k < channels
        invariant
            r.wf(),
            k <= channels,
            pow2(10) == 1024 && pow2(8) == 256,
            enabled,
            spec_transients(old(r)@, enabled, channels as nat) == spec_transients_rest(
                old(r)@,
                0,
                channels as nat,
                Seq::empty(),
            ),
            spec_transients_rest(old(r)@, 0, channels as nat, Seq::empty())
                == spec_transients_rest(r@, k as nat, channels as nat, out@),
        decreases channels - k,
    {
        if rflag(r)? {
            let location = rd(r, 10)? as u16;
            let length = rd(r, 8)? as u8;
            out.push(Some(TransientProcessorInfo { location, length }));
        } else {
            out.push(None);
        }
        k = k + 1;
    }
    Ok(out)
}

fn read_attenuation(r: &mut BitReader, enabled: bool, channels: usize) -> (res: Result<
    Vec<Option<u8>>,
    ParseError,
>)
    requires
        old(r).wf(),
    ensures
        final(r).wf(),
        match spec_attenuation(old(r)@, enabled, channels as nat) {
            Ok((v, c)) => res matches Ok(rv) && rv@ == v && final(r)@ == c,
            Err(e) => res matches Err(re) && re == e,
        },
{
    reveal(spec_attenuation);
    let mut out: Vec<Option<u8>> = Vec::new();
    let mut k: usize = 0;
    proof {
        lemma2_to64();
    }
    if !enabled {
        while k < channels
            invariant
                k <= channels,
                out@ == Seq::new(k as nat, |i: int| None::<u8>),
            decreases channels - k,
        {
            out.push(None);
            k = k + 1;
            assert(out@ =~= Seq::new(k as nat, |i: int| None::<u8>));
        }
        return Ok(out);
    }
    while k < channels
        invariant
            r.wf(),
            k <= channels,
            pow2(5) == 32,
            enabled,
            spec_attenuation(old(r)@, enabled, channels as nat) == spec_attenuation_rest(
                old(r)@,
                0,
                channels as nat,
                Seq::empty(),
            ),
            spec_attenuation_rest(old(r)@, 0, channels as nat, Seq::empty())
                == spec_attenuation_rest(r@, k as nat, channels as nat, out@),
        decreases channels - k,
    {
        if rflag(r)? {
            let v = rd(r, 5)? as u8;
            out.push(Some(v));
        } else {
            out.push(None);
        }
        k = k + 1;
    }
    Ok(out)
}

fn read_offsets(r: &mut BitReader, count: usize, width: usize) -> (res: Result<
    Vec<usize>,
    ParseError,
>)
    requires
        old(r).wf(),
        width <= 16,
    ensures
        final(r).wf(),
        match spec_offsets_rest(old(r)@, 1, count as nat, width as nat, Seq::empty()) {
            Ok((v, c)) => res matches Ok(rv) && rv@ == v && final(r)@ == c,
            Err(e) => res matches Err(re) && re == e,
        },
        res matches Ok(v) ==> count >= 1 ==> v@.len() == count - 1,
{
    let mut offsets: Vec<usize> = Vec::new();
    let mut k: usize = 1;
    proof {
        lemma2_to64();
        if width < 16 {
            vstd::arithmetic::power2::lemma_pow2_strictly_increases(width as nat, 16);
        }
    }
    if count == 0 {
        return Ok(offsets);
    }
    while k < count
        invariant
            r.wf(),
            1 <= k <= count,
            width <= 16,
            offsets@.len() == k - 1,
            pow2(width as nat) <= 0x10000,
            spec_offsets_rest(old(r)@, 1, count as nat, width as nat, Seq::empty())
                == spec_offsets_rest(r@, k as nat, count as nat, width as nat, offsets@),
        decreases count - k,
    {
        let v = rd(r, width)?;
        offsets.push(v as usize);
        k = k + 1;
    }
    Ok(offsets)
}

fn read_block_start(r: &mut BitReader, num_blocks: usize, words_per_syncframe: usize) -> (res: Result<
    (bool, usize, Option<Vec<usize>>),
    ParseError,
>)
    requires
        old(r).wf(),
        1 <= num_blocks <= 6,
        1 <= words_per_syncframe <= 2048,
    ensures
        final(r).wf(),
        match spec_block_start(old(r)@, num_blocks as nat, words_per_syncframe as nat) {
            Ok((p, len, offs, c)) => res matches Ok((rp, rl, ro)) && rp == p && rl == len
                && final(r)@ == c && match offs {
                Some(o) => ro matches Some(v) && v@ == o,
                None => ro is None,
            },
            Err(e) => res matches Err(re) && re == e,
        },
{
    reveal(spec_block_start);
    if num_blocks == 1 {
        return Ok((false, 0, None));
    }
    if !rflag(r)? {
        return Ok((false, 0, None));
    }
    let lg = log2_ceil(words_per_syncframe);
    proof {
        lemma2_to64();
        if lg > 12 {
            vstd::arithmetic::power2::lemma_pow2_strictly_increases(11, (lg - 1) as nat);
        }
    }
    assert(lg <= 11);
    let width = 4 + lg;
    assert((num_blocks - 1) * width <= 5 * 15) by (nonlinear_arith)
        requires
            num_blocks <= 6,
            num_blocks >= 1,
            width <= 15,
    ;
    let bit_len = (num_blocks - 1) * width;
    let offsets = read_offsets(r, num_blocks, width)?;
    let mut resolved: Vec<usize> = Vec::new();
    resolved.push(r.position());
    let mut i: usize = 0;
    while i < offsets.len()
        invariant
            i <= offsets@.len(),
            offsets@.len() < 6,
            resolved@ == seq![r@.pos as usize] + offsets@.subrange(0, i as int),
        decreases offsets@.len() - i,
    {
        resolved.push(offsets[i]);
        i = i + 1;
        assert(resolved@ =~= seq![r@.pos as usize] + offsets@.subrange(0, i as int));
    }
    assert(offsets@.subrange(0, offsets@.len() as int) =~= offsets@);
    if block_start_offsets_are_valid(resolved.as_slice(), words_per_syncframe * 16) {
        Ok((true, bit_len, Some(resolved)))
    } else {
        Ok((true, bit_len, None))
    }
}

} // verus!

verus! {

/// Parsed `audfrm` together with the usable block start offsets.
pub struct ParsedAudioFrame {
    pub info: AudioFrameInfo,
    pub block_start_bit_offsets: Option<Vec<usize>>,
}

/// Executable form of [`AudioFrameTail`].
pub struct AudioTail {
    pub lfe_exponent_strategy: Vec<bool>,
    pub converter_exponent_strategy_present: bool,
    pub converter_exponent_strategy: Vec<u8>,
    pub frame_csnr_offset: Option<u8>,
    pub frame_fsnr_offset: Option<u8>,
    pub transient_processors: Vec<Option<TransientProcessorInfo>>,
    pub spectral_extension_attenuation: Vec<Option<u8>>,
    pub block_start_info_present: bool,
    pub block_start_info_bit_len: usize,
    pub block_start_bit_offsets: Option<Vec<usize>>,
}

impl AudioTail {
    pub open spec fn matches(&self, t: AudioFrameTail) -> bool {
        &&& self.lfe_exponent_strategy@ == t.lfe_exponent_strategy
        &&& self.converter_exponent_strategy_present == t.converter_exponent_strategy_present
        &&& self.converter_exponent_strategy@ == t.converter_exponent_strategy
        &&& self.frame_csnr_offset == t.frame_csnr_offset
        &&& self.frame_fsnr_offset == t.frame_fsnr_offset
        &&& self.transient_processors@ == t.transient_processors
        &&& self.spectral_extension_attenuation@ == t.spectral_extension_attenuation
        &&& self.block_start_info_present == t.block_start_info_present
        &&& self.block_start_info_bit_len == t.block_start_info_bit_len
        &&& match t.block_start_bit_offsets {
            Some(o) => self.block_start_bit_offsets matches Some(v) && v@ == o,
            None => self.block_start_bit_offsets is None,
        }
    }
}

#[verifier::rlimit(60)]
fn read_audio_tail(
    r: &mut BitReader,
    flags: &AudioFrameFlags,
    frame_type: FrameType,
    words_per_syncframe: usize,
    num_blocks: usize,
    fullband_channels: usize,
    lfe_on: bool,
) -> (res: Result<AudioTail, ParseError>)
    requires
        old(r).wf(),
        1 <= num_blocks <= 6,
        1 <= words_per_syncframe <= 2048,
    ensures
        final(r).wf(),
        match spec_audio_tail(
            old(r)@,
            *flags,
            frame_type,
            words_per_syncframe as nat,
            num_blocks as nat,
            fullband_channels as nat,
            lfe_on,
        ) {
            Ok((t, c)) => res matches Ok(rt) && rt.matches(t) && final(r)@ == c,
            Err(e) => res matches Err(re) && re == e,
        },
{
    reveal(spec_audio_tail);
    let lfe_exponent_strategy = read_lfe_strategies(r, lfe_on, num_blocks)?;
    let (converter_exponent_strategy_present, converter_exponent_strategy) = read_converter(
        r,
        frame_type,
        num_blocks,
        fullband_channels,
    )?;
    let (frame_csnr_offset, frame_fsnr_offset) = read_frame_snr(r, flags.snr_offset_strategy)?;
    let transient_processors = read_transients(
        r,
        flags.transient_processing_enabled,
        fullband_channels,
    )?;
    let spectral_extension_attenuation = read_attenuation(
        r,
        flags.spectral_extension_attenuation_enabled,
        fullband_channels,
    )?;
    let (block_start_info_present, block_start_info_bit_len, block_start_bit_offsets) =
        read_block_start(r, num_blocks, words_per_syncframe)?;
    Ok(
        AudioTail {
            lfe_exponent_strategy,
            converter_exponent_strategy_present,
            converter_exponent_strategy,
            frame_csnr_offset,
            frame_fsnr_offset,
            transient_processors,
            spectral_extension_attenuation,
            block_start_info_present,
            block_start_info_bit_len,
            block_start_bit_offsets,
        },
    )
}

/// Parses the frame-level audio syntax `audfrm` of a syncframe.
#[verifier::rlimit(60)]
pub fn parse_audio_frame(
    r: &mut BitReader,
    frame_type: FrameType,
    words_per_syncframe: usize,
    num_blocks: usize,
    channel_mode: u8,
    fullband_channels: usize,
    lfe_on: bool,
) -> (res: Result<ParsedAudioFrame, ParseError>)
    requires
        old(r).wf(),
        1 <= num_blocks <= 6,
        1 <= words_per_syncframe <= 2048,
    ensures
        final(r).wf(),
        match spec_audio_frame(
            old(r)@,
            frame_type,
            words_per_syncframe as nat,
            num_blocks as nat,
            channel_mode,
            fullband_channels as nat,
            lfe_on,
        ) {
            Ok((m, offs, c)) => res matches Ok(p) && p.info@ == m && final(r)@ == c && match offs {
                Some(o) => p.block_start_bit_offsets matches Some(v) && v@ == o,
                None => p.block_start_bit_offsets is None,
            },
            Err(e) => res matches Err(re) && re == e,
        },
        res matches Ok(p) ==> p.info.coupling_in_use@.len() == num_blocks
            && p.info.coupling_strategy_updates@.len() == num_blocks
            && p.info.coupling_exponent_strategy@.len() == num_blocks
            && p.info.channel_exponent_strategy@.len() == num_blocks && forall|i: int|
            0 <= i < num_blocks ==> p.info.channel_exponent_strategy@[i]@.len()
                == fullband_channels,
{
    proof {
        reveal(spec_audio_frame);
    }
    let flags = read_audio_flags(r, num_blocks)?;
    let (coupling_strategy_updates, coupling_in_use) = read_coupling_strategy_flags(
        r,
        num_blocks,
        channel_mode,
    )?;
    let (coupling_exponent_strategy, channel_exponent_strategy) = read_exp_strategies(
        r,
        flags.exponent_strategies_embedded,
        num_blocks,
        fullband_channels,
        channel_mode,
        &coupling_in_use,
    )?;
    let ghost ch_view = rows_view(channel_exponent_strategy@);
    let tail = read_audio_tail(
        r,
        &flags,
        frame_type,
        words_per_syncframe,
        num_blocks,
        fullband_channels,
        lfe_on,
    )?;
    let info = AudioFrameInfo {
        exponent_strategies_embedded: flags.exponent_strategies_embedded,
        adaptive_hybrid_transform_enabled: false,
        snr_offset_strategy: flags.snr_offset_strategy,
        transient_processing_enabled: flags.transient_processing_enabled,
        block_switching_enabled: flags.block_switching_enabled,
        dithering_enabled: flags.dithering_enabled,
        bit_allocation_mode_enabled: flags.bit_allocation_mode_enabled,
        frame_gain_syntax_enabled: flags.frame_gain_syntax_enabled,
        delta_bit_allocation_enabled: flags.delta_bit_allocation_enabled,
        skip_field_syntax_enabled: flags.skip_field_syntax_enabled,
        spectral_extension_attenuation_enabled: flags.spectral_extension_attenuation_enabled,
        coupling_strategy_updates,
        coupling_in_use,
        coupling_exponent_strategy,
        channel_exponent_strategy,
        lfe_exponent_strategy: tail.lfe_exponent_strategy,
        converter_exponent_strategy_present: tail.converter_exponent_strategy_present,
        converter_exponent_strategy: tail.converter_exponent_strategy,
        frame_csnr_offset: tail.frame_csnr_offset,
        frame_fsnr_offset: tail.frame_fsnr_offset,
        transient_processors: tail.transient_processors,
        spectral_extension_attenuation: tail.spectral_extension_attenuation,
        block_start_info_present: tail.block_start_info_present,
        block_start_info_bit_len: tail.block_start_info_bit_len,
        block_payload_start_bit_offset: r.position(),
    };
    assert(info@.channel_exponent_strategy == ch_view);
    Ok(ParsedAudioFrame { info, block_start_bit_offsets: tail.block_start_bit_offsets })
}

} // verus!
