//! Data types describing one parsed E-AC-3 access unit.

use crate::bitreader::{BitCursor, BitReader};
use crate::text::{append_decimal, spec_decimal};
use vstd::prelude::*;
use vstd::string::StringExecFns;

verus! {

/// E-AC-3 frame coding mode.
#[derive(Debug, Clone, Copy, PartialEq, Eq, Structural)]
pub enum FrameType {
    Independent,
    Dependent,
    Ac3Convert,
}

impl FrameType {
    /// Stable text name of the frame type.
    pub fn name(&self) -> (s: &'static str)
        ensures
            s == spec_frame_type_name(*self),
    {
        match self {
            FrameType::Independent => "independent",
            FrameType::Dependent => "dependent",
            FrameType::Ac3Convert => "ac3-convert",
        }
    }
}

pub open spec fn spec_frame_type_name(t: FrameType) -> &'static str {
    match t {
        FrameType::Independent => "independent",
        FrameType::Dependent => "dependent",
        FrameType::Ac3Convert => "ac3-convert",
    }
}

/// Where the EMDF payloads of an access unit were recovered from.
#[derive(Debug, Clone, Copy, PartialEq, Eq, Structural)]
pub enum EmdfSource {
    Absent,
    AuxData,
    FrameScanFallback,
}

impl EmdfSource {
    /// Stable text name of the source.
    pub fn name(&self) -> (s: &'static str)
        ensures
            s == spec_emdf_source_name(*self),
    {
        match self {
            EmdfSource::Absent => "none",
            EmdfSource::AuxData => "aux-data",
            EmdfSource::FrameScanFallback => "frame-scan",
        }
    }
}

pub open spec fn spec_emdf_source_name(s: EmdfSource) -> &'static str {
    match s {
        EmdfSource::Absent => "none",
        EmdfSource::AuxData => "aux-data",
        EmdfSource::FrameScanFallback => "frame-scan",
    }
}

/// Outcome of the auxiliary-data extraction path.
#[derive(Debug, Clone, Copy, PartialEq, Eq, Structural)]
pub enum AuxParseStatus {
    Disabled,
    Extracted,
    SyncAnchoredRecovery,
    NoBlockStartInfo,
    UnsupportedSyntax,
    SyntaxMismatch,
}

impl AuxParseStatus {
    /// Stable text name of the status.
    pub fn name(&self) -> (s: &'static str)
        ensures
            s == spec_aux_parse_status_name(*self),
    {
        match self {
            AuxParseStatus::Disabled => "disabled",
            AuxParseStatus::Extracted => "extracted",
            AuxParseStatus::SyncAnchoredRecovery => "sync-anchored",
            AuxParseStatus::NoBlockStartInfo => "no-blkstart",
            AuxParseStatus::UnsupportedSyntax => "unsupported",
            AuxParseStatus::SyntaxMismatch => "syntax-mismatch",
        }
    }
}

pub open spec fn spec_aux_parse_status_name(s: AuxParseStatus) -> &'static str {
    match s {
        AuxParseStatus::Disabled => "disabled",
        AuxParseStatus::Extracted => "extracted",
        AuxParseStatus::SyncAnchoredRecovery => "sync-anchored",
        AuxParseStatus::NoBlockStartInfo => "no-blkstart",
        AuxParseStatus::UnsupportedSyntax => "unsupported",
        AuxParseStatus::SyntaxMismatch => "syntax-mismatch",
    }
}

/// Exponent strategy of one channel in one audio block.
#[derive(Debug, Clone, Copy, PartialEq, Eq, Structural)]
pub enum ExpStrategy {
    Reuse,
    D15,
    D25,
    D45,
}

/// Parse errors returned by access-unit inspection.
#[derive(Debug, Clone, PartialEq, Eq)]
pub enum ParseError {
    ShortPacket,
    BadSyncword,
    NotEac3,
    InvalidHeader(&'static str),
    UnsupportedFeature(&'static str),
    TruncatedFrame { expected: usize, available: usize },
    TrailingData { expected: usize, provided: usize },
}

/// Text of a parse error, as logs and the command-line tool show it.
pub open spec fn spec_parse_error_text(e: ParseError) -> Seq<char> {
    match e {
        ParseError::ShortPacket => "short-packet"@,
        ParseError::BadSyncword => "bad-syncword"@,
        ParseError::NotEac3 => "not-eac3"@,
        ParseError::InvalidHeader(field) => "invalid-header:"@ + field@,
        ParseError::UnsupportedFeature(feature) => "unsupported-feature:"@ + feature@,
        ParseError::TruncatedFrame { expected, available } => "truncated-frame expected="@
            + spec_decimal(expected as nat) + " available="@ + spec_decimal(available as nat),
        ParseError::TrailingData { expected, provided } => "trailing-data expected="@
            + spec_decimal(expected as nat) + " provided="@ + spec_decimal(provided as nat),
    }
}

impl ParseError {
    /// Text of the error, as logs and the command-line tool show it.
    pub fn to_string(&self) -> (s: String)
        ensures
            s@ == spec_parse_error_text(*self),
    {
        let mut out = String::new();
        match self {
            ParseError::ShortPacket => out.append("short-packet"),
            ParseError::BadSyncword => out.append("bad-syncword"),
            ParseError::NotEac3 => out.append("not-eac3"),
            ParseError::InvalidHeader(field) => {
                out.append("invalid-header:");
                out.append(field);
            },
            ParseError::UnsupportedFeature(feature) => {
                out.append("unsupported-feature:");
                out.append(feature);
            },
            ParseError::TruncatedFrame { expected, available } => {
                out.append("truncated-frame expected=");
                append_decimal(&mut out, *expected as u64);
                out.append(" available=");
                append_decimal(&mut out, *available as u64);
            },
            ParseError::TrailingData { expected, provided } => {
                out.append("trailing-data expected=");
                append_decimal(&mut out, *expected as u64);
                out.append(" provided=");
                append_decimal(&mut out, *provided as u64);
            },
        }
        assert(out@ =~= spec_parse_error_text(*self));
        out
    }
}

/// Lightweight description of one EMDF payload inside an access unit.
#[derive(Debug, Clone, PartialEq, Eq)]
pub struct PayloadInfo {
    pub emdf_block_index: usize,
    pub payload_id: u8,
    pub payload_size_bytes: usize,
    pub sample_offset: Option<u16>,
}

/// Human-readable kind of an EMDF payload id.
pub open spec fn spec_payload_name(payload_id: u8) -> &'static str {
    if payload_id == 11 {
        "oamd"
    } else if payload_id == 14 {
        "joc"
    } else {
        "unknown"
    }
}

/// Human-readable kind of an EMDF payload id: `oamd` (11), `joc` (14) or `unknown`.
pub fn payload_name(payload_id: u8) -> (s: &'static str)
    ensures
        s == spec_payload_name(payload_id),
{
    match payload_id {
        11 => "oamd",
        14 => "joc",
        _ => "unknown",
    }
}

impl PayloadInfo {
    /// Human-readable payload kind derived from `payload_id`.
    pub fn payload_name(&self) -> (s: &'static str)
        ensures
            s == spec_payload_name(self.payload_id),
    {
        payload_name(self.payload_id)
    }
}

/// One recovered skip-field payload.
#[derive(Debug, Clone, PartialEq, Eq)]
pub struct SkipFieldInfo {
    pub block_index: Option<usize>,
    pub bit_offset: usize,
    pub bytes: Vec<u8>,
}

/// One EMDF payload with its raw bytes.
#[derive(Debug, Clone, PartialEq, Eq)]
pub struct EmdfPayloadInfo {
    pub info: PayloadInfo,
    pub bytes: Vec<u8>,
}

impl EmdfPayloadInfo {
    /// Human-readable payload kind derived from [`PayloadInfo::payload_id`].
    pub fn payload_name(&self) -> (s: &'static str)
        ensures
            s == spec_payload_name(self.info.payload_id),
    {
        self.info.payload_name()
    }
}

/// One EMDF block recovered from the frame or from the auxiliary data.
#[derive(Debug, Clone, PartialEq, Eq)]
pub struct EmdfBlockInfo {
    pub sync_offset: usize,
    pub payloads: Vec<EmdfPayloadInfo>,
}

/// Transient pre-noise processing parameters of one channel.
#[derive(Debug, Clone, Copy, PartialEq, Eq)]
pub struct TransientProcessorInfo {
    pub location: u16,
    pub length: u8,
}

/// Frame-level audio syntax (`audfrm`) of an E-AC-3 syncframe.
#[derive(Debug, Clone, PartialEq, Eq)]
pub struct AudioFrameInfo {
    pub exponent_strategies_embedded: bool,
    pub adaptive_hybrid_transform_enabled: bool,
    pub snr_offset_strategy: u8,
    pub transient_processing_enabled: bool,
    pub block_switching_enabled: bool,
    pub dithering_enabled: bool,
    pub bit_allocation_mode_enabled: bool,
    pub frame_gain_syntax_enabled: bool,
    pub delta_bit_allocation_enabled: bool,
    pub skip_field_syntax_enabled: bool,
    pub spectral_extension_attenuation_enabled: bool,
    pub coupling_strategy_updates: Vec<bool>,
    pub coupling_in_use: Vec<bool>,
    pub coupling_exponent_strategy: Vec<Option<ExpStrategy>>,
    pub channel_exponent_strategy: Vec<Vec<ExpStrategy>>,
    pub lfe_exponent_strategy: Vec<bool>,
    pub converter_exponent_strategy_present: bool,
    pub converter_exponent_strategy: Vec<u8>,
    pub frame_csnr_offset: Option<u8>,
    pub frame_fsnr_offset: Option<u8>,
    pub transient_processors: Vec<Option<TransientProcessorInfo>>,
    pub spectral_extension_attenuation: Vec<Option<u8>>,
    pub block_start_info_present: bool,
    pub block_start_info_bit_len: usize,
    pub block_payload_start_bit_offset: usize,
}

/// Mathematical view of [`AudioFrameInfo`].
pub struct AudioFrameModel {
    pub exponent_strategies_embedded: bool,
    pub adaptive_hybrid_transform_enabled: bool,
    pub snr_offset_strategy: u8,
    pub transient_processing_enabled: bool,
    pub block_switching_enabled: bool,
    pub dithering_enabled: bool,
    pub bit_allocation_mode_enabled: bool,
    pub frame_gain_syntax_enabled: bool,
    pub delta_bit_allocation_enabled: bool,
    pub skip_field_syntax_enabled: bool,
    pub spectral_extension_attenuation_enabled: bool,
    pub coupling_strategy_updates: Seq<bool>,
    pub coupling_in_use: Seq<bool>,
    pub coupling_exponent_strategy: Seq<Option<ExpStrategy>>,
    pub channel_exponent_strategy: Seq<Seq<ExpStrategy>>,
    pub lfe_exponent_strategy: Seq<bool>,
    pub converter_exponent_strategy_present: bool,
    pub converter_exponent_strategy: Seq<u8>,
    pub frame_csnr_offset: Option<u8>,
    pub frame_fsnr_offset: Option<u8>,
    pub transient_processors: Seq<Option<TransientProcessorInfo>>,
    pub spectral_extension_attenuation: Seq<Option<u8>>,
    pub block_start_info_present: bool,
    pub block_start_info_bit_len: int,
    pub block_payload_start_bit_offset: int,
}

impl View for AudioFrameInfo {
    type V = AudioFrameModel;

    open spec fn view(&self) -> AudioFrameModel {
        AudioFrameModel {
            exponent_strategies_embedded: self.exponent_strategies_embedded,
            adaptive_hybrid_transform_enabled: self.adaptive_hybrid_transform_enabled,
            snr_offset_strategy: self.snr_offset_strategy,
            transient_processing_enabled: self.transient_processing_enabled,
            block_switching_enabled: self.block_switching_enabled,
            dithering_enabled: self.dithering_enabled,
            bit_allocation_mode_enabled: self.bit_allocation_mode_enabled,
            frame_gain_syntax_enabled: self.frame_gain_syntax_enabled,
            delta_bit_allocation_enabled: self.delta_bit_allocation_enabled,
            skip_field_syntax_enabled: self.skip_field_syntax_enabled,
            spectral_extension_attenuation_enabled: self.spectral_extension_attenuation_enabled,
            coupling_strategy_updates: self.coupling_strategy_updates@,
            coupling_in_use: self.coupling_in_use@,
            coupling_exponent_strategy: self.coupling_exponent_strategy@,
            channel_exponent_strategy: self.channel_exponent_strategy@.map_values(
                |v: Vec<ExpStrategy>| v@,
            ),
            lfe_exponent_strategy: self.lfe_exponent_strategy@,
            converter_exponent_strategy_present: self.converter_exponent_strategy_present,
            converter_exponent_strategy: self.converter_exponent_strategy@,
            frame_csnr_offset: self.frame_csnr_offset,
            frame_fsnr_offset: self.frame_fsnr_offset,
            transient_processors: self.transient_processors@,
            spectral_extension_attenuation: self.spectral_extension_attenuation@,
            block_start_info_present: self.block_start_info_present,
            block_start_info_bit_len: self.block_start_info_bit_len as int,
            block_payload_start_bit_offset: self.block_payload_start_bit_offset as int,
        }
    }
}

/// Reads `n` bits, failing with `ShortPacket`.
pub open spec fn sread(c: BitCursor, n: nat) -> Result<(nat, BitCursor), ParseError> {
    match c.read(n) {
        Some(x) => Ok(x),
        None => Err(ParseError::ShortPacket),
    }
}

/// Reads a one-bit flag, failing with `ShortPacket`.
pub open spec fn sflag(c: BitCursor) -> Result<(bool, BitCursor), ParseError> {
    match c.read_flag() {
        Some(x) => Ok(x),
        None => Err(ParseError::ShortPacket),
    }
}

/// Skips `n` bits, failing with `ShortPacket`.
pub open spec fn sskip(c: BitCursor, n: int) -> Result<BitCursor, ParseError> {
    match c.skip(n) {
        Some(x) => Ok(x),
        None => Err(ParseError::ShortPacket),
    }
}

/// Skips `n` bits after a set flag (`flag; if flag { n bits }`).
pub open spec fn scond_skip(c: BitCursor, n: int) -> Result<BitCursor, ParseError> {
    match sflag(c) {
        Err(e) => Err(e),
        Ok((f, c1)) => if f {
            sskip(c1, n)
        } else {
            Ok(c1)
        },
    }
}

/// Continues a parse that may already have failed by skipping `n` bits.
pub open spec fn then_skip(r: Result<BitCursor, ParseError>, n: int) -> Result<
    BitCursor,
    ParseError,
> {
    match r {
        Ok(c) => sskip(c, n),
        Err(e) => Err(e),
    }
}

/// Continues a parse that may already have failed with a conditional skip.
pub open spec fn then_cond_skip(r: Result<BitCursor, ParseError>, n: int) -> Result<
    BitCursor,
    ParseError,
> {
    match r {
        Ok(c) => scond_skip(c, n),
        Err(e) => Err(e),
    }
}

/// `count` conditional skips of `n` bits each.
pub open spec fn repeat_cond_skip(r: Result<BitCursor, ParseError>, count: nat, n: int) -> Result<
    BitCursor,
    ParseError,
>
    decreases count,
{
    match r {
        Err(e) => Err(e),
        Ok(c) => if count == 0 {
            Ok(c)
        } else {
            repeat_cond_skip(scond_skip(c, n), (count - 1) as nat, n)
        },
    }
}

/// Exec reader steps that fail with `ShortPacket`.
pub fn rd(r: &mut BitReader, n: usize) -> (res: Result<u32, ParseError>)
    requires
        old(r).wf(),
        n <= 32,
    ensures
        final(r).wf(),
        match sread(old(r)@, n as nat) {
            Ok((v, c)) => v < vstd::arithmetic::power2::pow2(n as nat) && res == Ok::<
                u32,
                ParseError,
            >(v as u32) && final(r)@ == c,
            Err(e) => res == Err::<u32, ParseError>(e),
        },
        res matches Ok(v) ==> (v as int) < vstd::arithmetic::power2::pow2(n as nat),
{
    proof {
        crate::bitreader::lemma_bits_value_bound(r@.data, r@.pos, n as nat);
    }
    match r.read_bits(n) {
        Some(v) => Ok(v),
        None => Err(ParseError::ShortPacket),
    }
}

/// Reads a flag, failing with `ShortPacket`.
pub fn rflag(r: &mut BitReader) -> (res: Result<bool, ParseError>)
    requires
        old(r).wf(),
    ensures
        final(r).wf(),
        match sflag(old(r)@) {
            Ok((v, c)) => res == Ok::<bool, ParseError>(v) && final(r)@ == c,
            Err(e) => res == Err::<bool, ParseError>(e),
        },
{
    match r.read_bit() {
        Some(v) => Ok(v),
        None => Err(ParseError::ShortPacket),
    }
}

/// Skips bits, failing with `ShortPacket`.
pub fn rskip(r: &mut BitReader, n: usize) -> (res: Result<(), ParseError>)
    requires
        old(r).wf(),
    ensures
        final(r).wf(),
        match sskip(old(r)@, n as int) {
            Ok(c) => res is Ok && final(r)@ == c,
            Err(e) => res == Err::<(), ParseError>(e),
        },
{
    match r.skip_bits(n) {
        Some(_) => Ok(()),
        None => Err(ParseError::ShortPacket),
    }
}

/// Skips `n` bits when a leading flag is set.
pub fn skip_conditional_bits(r: &mut BitReader, n: usize) -> (res: Result<(), ParseError>)
    requires
        old(r).wf(),
    ensures
        final(r).wf(),
        match scond_skip(old(r)@, n as int) {
            Ok(c) => res is Ok && final(r)@ == c,
            Err(e) => res == Err::<(), ParseError>(e),
        },
{
    let f = rflag(r)?;
    if f {
        rskip(r, n)?;
    }
    Ok(())
}

/// Whether two texts are equal, compared by their UTF-8 bytes.
pub fn same_text(a: &str, b: &str) -> (r: bool)
    ensures
        r == (a@ == b@),
{
    let x = a.as_bytes();
    let y = b.as_bytes();
    proof {
        vstd::utf8::encode_utf8_decode_utf8(a@);
        vstd::utf8::encode_utf8_decode_utf8(b@);
    }
    if x.len() != y.len() {
        return false;
    }
    let mut i: usize = 0;
    while i < x.len()
        invariant
            x@.len() == y@.len(),
            a@ == b@ ==> x@ == y@,
            i <= x@.len(),
            forall|j: int| 0 <= j < i ==> x@[j] == y@[j],
        decreases x@.len() - i,
    {
        if x[i] != y[i] {
            return false;
        }
        i += 1;
    }
    assert(x@ =~= y@);
    true
}

/// `e` is an `InvalidHeader` error naming `field`.
pub open spec fn is_invalid_header(e: ParseError, field: &str) -> bool {
    e matches ParseError::InvalidHeader(s) && s@ == field@
}

} // verus!
