//! Inspection of one complete E-AC-3 access unit.

use crate::bitreader::{lemma_bits_value_bound, BitCursor, BitReader};
use crate::syncframe::audio_frame::{parse_audio_frame, spec_audio_frame, ParsedAudioFrame};
use crate::syncframe::bsi::{
    lemma_bsi_core_channels,
    read_bsi, read_frame_size, spec_bitstream_id, spec_bsi, spec_frame_size, BsiCore,
};
use crate::syncframe::header::{spec_front_channels, spec_surround_channels};
use crate::syncframe::emdf::{
    blocks_view, extract_trailing_aux_data, scan_emdf_blocks, scan_frame_for_emdf,
    spec_scan_emdf, spec_scan_source, spec_trailing_aux, EmdfBlockModel, EmdfPayloadModel,
};
use crate::syncframe::params::frame_covers_block;
use crate::syncframe::skip::{
    recover_skip_fields_from_emdf_markers, skip_fields_view, spec_recover_all, SkipFieldModel,
};
use crate::syncframe::types::{
    is_invalid_header, same_text, AudioFrameInfo, AudioFrameModel, AuxParseStatus,
    EmdfBlockInfo, EmdfPayloadInfo, EmdfSource, FrameType, ParseError, SkipFieldInfo,
};
use crate::syncframe::walk::{
    collect_skip_fields, collect_skip_fields_without_block_start, frame_covers_blocks,
    spec_collect_skip_fields, spec_collect_skip_fields_without_block_start,
};
use vstd::arithmetic::power2::lemma2_to64;
use vstd::prelude::*;
use vstd::slice::slice_subrange;

verus! {

/// Parsed summary of one complete E-AC-3 access unit: header fields, the frame-level audio
/// syntax, the recovered auxiliary data and the EMDF blocks found in it.
#[derive(Debug, Clone, PartialEq, Eq)]
pub struct AccessUnitInfo {
    pub frame_size: usize,
    pub bitstream_id: u8,
    pub frame_type: FrameType,
    pub substreamid: u8,
    pub sample_rate: u32,
    pub num_blocks: u8,
    pub channel_mode: u8,
    pub channels: u8,
    pub fullband_channels: u8,
    pub lfe_on: bool,
    pub addbsi_present: bool,
    pub extension_type_a: bool,
    pub complexity_index_type_a: u8,
    pub mixing_metadata_present: bool,
    pub informational_metadata_present: bool,
    pub addbsi_bytes: Vec<u8>,
    pub body_start_bit_offset: usize,
    pub audio_frame: AudioFrameInfo,
    pub skip_fields: Vec<SkipFieldInfo>,
    pub trailing_aux_data: Vec<u8>,
    pub aux_data: Vec<u8>,
    pub aux_parse_status: AuxParseStatus,
    pub emdf_source: EmdfSource,
    pub emdf_blocks: Vec<EmdfBlockInfo>,
    pub emdf_block_count: usize,
    pub first_emdf_sync_offset: Option<usize>,
}

/// Mathematical view of [`AccessUnitInfo`].
pub struct AccessUnitModel {
    pub frame_size: usize,
    pub bitstream_id: u8,
    pub frame_type: FrameType,
    pub substreamid: u8,
    pub sample_rate: u32,
    pub num_blocks: u8,
    pub channel_mode: u8,
    pub channels: u8,
    pub fullband_channels: u8,
    pub lfe_on: bool,
    pub addbsi_present: bool,
    pub extension_type_a: bool,
    pub complexity_index_type_a: u8,
    pub mixing_metadata_present: bool,
    pub informational_metadata_present: bool,
    pub addbsi_bytes: Seq<u8>,
    pub body_start_bit_offset: usize,
    pub audio_frame: AudioFrameModel,
    pub skip_fields: Seq<SkipFieldModel>,
    pub trailing_aux_data: Seq<u8>,
    pub aux_data: Seq<u8>,
    pub aux_parse_status: AuxParseStatus,
    pub emdf_source: EmdfSource,
    pub emdf_blocks: Seq<EmdfBlockModel>,
    pub emdf_block_count: usize,
    pub first_emdf_sync_offset: Option<usize>,
}

impl View for AccessUnitInfo {
    type V = AccessUnitModel;

    open spec fn view(&self) -> AccessUnitModel {
        AccessUnitModel {
            frame_size: self.frame_size,
            bitstream_id: self.bitstream_id,
            frame_type: self.frame_type,
            substreamid: self.substreamid,
            sample_rate: self.sample_rate,
            num_blocks: self.num_blocks,
            channel_mode: self.channel_mode,
            channels: self.channels,
            fullband_channels: self.fullband_channels,
            lfe_on: self.lfe_on,
            addbsi_present: self.addbsi_present,
            extension_type_a: self.extension_type_a,
            complexity_index_type_a: self.complexity_index_type_a,
            mixing_metadata_present: self.mixing_metadata_present,
            informational_metadata_present: self.informational_metadata_present,
            addbsi_bytes: self.addbsi_bytes@,
            body_start_bit_offset: self.body_start_bit_offset,
            audio_frame: self.audio_frame@,
            skip_fields: skip_fields_view(self.skip_fields@),
            trailing_aux_data: self.trailing_aux_data@,
            aux_data: self.aux_data@,
            aux_parse_status: self.aux_parse_status,
            emdf_source: self.emdf_source,
            emdf_blocks: blocks_view(self.emdf_blocks@),
            emdf_block_count: self.emdf_block_count,
            first_emdf_sync_offset: self.first_emdf_sync_offset,
        }
    }
}

/// The bytes of the skip fields, concatenated in order.
pub open spec fn spec_skip_bytes(fields: Seq<SkipFieldModel>) -> Seq<u8>
    decreases fields.len(),
{
    if fields.len() == 0 {
        Seq::empty()
    } else {
        spec_skip_bytes(fields.drop_last()) + fields.last().bytes
    }
}

/// The skip fields recovered from the EMDF sync words of `frame`.
pub open spec fn spec_recovered(frame: Seq<u8>) -> Seq<SkipFieldModel> {
    spec_recover_all(frame, spec_scan_emdf(frame, 0, Seq::empty()))
}

/// Skip fields recovered from EMDF sync words, with `fallback` as the status when none is.
pub open spec fn spec_recovery(frame: Seq<u8>, fallback: AuxParseStatus) -> (
    Seq<SkipFieldModel>,
    AuxParseStatus,
) {
    if spec_recovered(frame).len() > 0 {
        (spec_recovered(frame), AuxParseStatus::SyncAnchoredRecovery)
    } else {
        (Seq::empty(), fallback)
    }
}

/// The skip fields of a frame and how they were obtained. With block start offsets (or a
/// single block) the blocks are walked one by one; unsupported syntax and syntax mismatches
/// leave no fields. Without offsets the blocks are walked in sequence, and when that breaks
/// off the fields are recovered from EMDF sync words. Other errors fail the inspection.
pub open spec fn spec_skip_outcome(
    frame: Seq<u8>,
    core: BsiCore,
    af: AudioFrameModel,
    offsets: Option<Seq<usize>>,
    end_bit: int,
) -> Result<(Seq<SkipFieldModel>, AuxParseStatus), ParseError> {
    if !af.skip_field_syntax_enabled {
        Ok((Seq::empty(), AuxParseStatus::Disabled))
    } else if core.num_blocks == 1 || offsets is Some {
        match spec_collect_skip_fields(
            frame,
            core.frame_type,
            core.num_blocks as nat,
            core.channel_mode,
            core.fullband_channels as nat,
            core.lfe_on,
            af,
            offsets,
            end_bit,
            core.sample_rate_index,
        ) {
            Ok(fields) => Ok((fields, AuxParseStatus::Extracted)),
            Err(e) => if e is UnsupportedFeature {
                Ok((Seq::empty(), AuxParseStatus::UnsupportedSyntax))
            } else if e is ShortPacket || is_invalid_header(e, "block-start-info") {
                Ok((Seq::empty(), AuxParseStatus::SyntaxMismatch))
            } else {
                Err(e)
            },
        }
    } else {
        match spec_collect_skip_fields_without_block_start(
            frame,
            core.frame_type,
            core.num_blocks as nat,
            core.channel_mode,
            core.fullband_channels as nat,
            core.lfe_on,
            af,
            end_bit,
            core.sample_rate_index,
        ) {
            Ok(fields) => Ok((fields, AuxParseStatus::Extracted)),
            Err(e) => if e is UnsupportedFeature {
                Ok(spec_recovery(frame, AuxParseStatus::UnsupportedSyntax))
            } else if e is ShortPacket || is_invalid_header(e, "block-end") || is_invalid_header(
                e,
                "mantissa-range",
            ) {
                Ok(spec_recovery(frame, AuxParseStatus::NoBlockStartInfo))
            } else {
                Err(e)
            },
        }
    }
}

/// Where the EMDF blocks come from: the auxiliary data when it holds any, else the whole frame.
pub open spec fn spec_emdf_outcome(frame: Seq<u8>, aux: Seq<u8>) -> (EmdfSource, Seq<EmdfBlockModel>) {
    let whole = spec_scan_emdf(frame, 0, Seq::empty());
    if aux.len() == 0 {
        (spec_scan_source(whole), whole)
    } else {
        let in_aux = spec_scan_emdf(aux, 0, Seq::empty());
        if in_aux.len() == 0 {
            (spec_scan_source(whole), whole)
        } else {
            (EmdfSource::AuxData, in_aux)
        }
    }
}

/// The first `min(size, data.len())` bytes of `data`.
pub open spec fn spec_frame_bytes(data: Seq<u8>, size: int) -> Seq<u8> {
    data.subrange(0, if size < data.len() {
        size
    } else {
        data.len() as int
    })
}

/// Bit 0 of the first `addbsi` byte marks extension type A.
pub open spec fn spec_extension_type_a(addbsi: Seq<u8>) -> bool {
    addbsi.len() > 0 && addbsi[0] & 1u8 != 0u8
}

/// The complexity index that follows an extension-type-A marker.
pub open spec fn spec_complexity_index(addbsi: Seq<u8>) -> u8 {
    if spec_extension_type_a(addbsi) && addbsi.len() > 1 {
        addbsi[1]
    } else {
        0
    }
}

/// The first block's sync offset, if there is a block.
pub open spec fn spec_first_sync(blocks: Seq<EmdfBlockModel>) -> Option<usize> {
    if blocks.len() > 0 {
        Some(blocks[0].sync_offset)
    } else {
        None
    }
}

/// What a frame carries beyond its header and audio syntax: the skip fields and how they
/// were obtained, the trailing auxiliary data, all auxiliary data, and the EMDF blocks with
/// their source.
pub open spec fn spec_aux_outcome(
    frame: Seq<u8>,
    core: BsiCore,
    af: AudioFrameModel,
    offsets: Option<Seq<usize>>,
) -> Result<
    (Seq<SkipFieldModel>, AuxParseStatus, Seq<u8>, Seq<u8>, EmdfSource, Seq<EmdfBlockModel>),
    ParseError,
> {
    let trailing = spec_trailing_aux(frame);
    match spec_skip_outcome(frame, core, af, offsets, trailing.0) {
        Err(e) => Err(e),
        Ok((fields, status)) => {
            let aux = spec_skip_bytes(fields) + trailing.1;
            let outcome = spec_emdf_outcome(frame, aux);
            Ok((fields, status, trailing.1, aux, outcome.0, outcome.1))
        },
    }
}

/// The inspection of the frame `frame` of `size` bytes with bitstream id `bitstream_id`.
#[verifier::opaque]
pub open spec fn spec_inspect_frame(frame: Seq<u8>, size: usize, bitstream_id: u8) -> Result<
    AccessUnitModel,
    ParseError,
> {
    let c = BitCursor { data: frame, pos: 0, limit: (frame.len() * 8) as int };
    match spec_bsi(c) {
        Err(e) => Err(e),
        Ok((bsi, c1)) => {
            let core = bsi.core;
            match spec_audio_frame(
                c1,
                core.frame_type,
                (size / 2) as nat,
                core.num_blocks as nat,
                core.channel_mode,
                core.fullband_channels as nat,
                core.lfe_on,
            ) {
                Err(e) => Err(e),
                Ok((af, offsets, _)) => match spec_aux_outcome(frame, core, af, offsets) {
                    Err(e) => Err(e),
                    Ok((fields, status, trailing, aux, source, blocks)) => Ok(
                        AccessUnitModel {
                            frame_size: size,
                            bitstream_id,
                            frame_type: core.frame_type,
                            substreamid: core.substreamid,
                            sample_rate: core.sample_rate,
                            num_blocks: core.num_blocks,
                            channel_mode: core.channel_mode,
                            channels: core.channels,
                            fullband_channels: core.fullband_channels,
                            lfe_on: core.lfe_on,
                            addbsi_present: bsi.addbsi_present,
                            extension_type_a: spec_extension_type_a(bsi.addbsi_bytes),
                            complexity_index_type_a: spec_complexity_index(bsi.addbsi_bytes),
                            mixing_metadata_present: bsi.mixing_metadata_present,
                            informational_metadata_present: bsi.informational_metadata_present,
                            addbsi_bytes: bsi.addbsi_bytes,
                            body_start_bit_offset: c1.pos as usize,
                            audio_frame: af,
                            skip_fields: fields,
                            trailing_aux_data: trailing,
                            aux_data: aux,
                            aux_parse_status: status,
                            emdf_source: source,
                            emdf_blocks: blocks,
                            emdf_block_count: blocks.len() as usize,
                            first_emdf_sync_offset: spec_first_sync(blocks),
                        },
                    ),
                },
            }
        },
    }
}

/// The inspection of the access unit `data`: its first frame, cut to the announced size.
pub open spec fn spec_inspect(data: Seq<u8>) -> Result<AccessUnitModel, ParseError> {
    match spec_frame_size(data) {
        Err(e) => Err(e),
        Ok(size) => spec_inspect_frame(
            spec_frame_bytes(data, size as int),
            size,
            spec_bitstream_id(data),
        ),
    }
}

/// What every successful inspection promises of its result: the frame is at least one
/// 16-bit word long, the EMDF source is `Absent` exactly when no EMDF block was found, the
/// block count and the first sync offset describe the block list, and the auxiliary data is
/// the skip-field payloads in block order followed by the trailing auxiliary data.
pub proof fn lemma_inspection_consistent(data: Seq<u8>)
    requires
        spec_inspect(data) is Ok,
    ensures
        ({
            let m = spec_inspect(data)->Ok_0;
            &&& m.frame_size >= 2
            &&& (m.emdf_source == EmdfSource::Absent) <==> m.emdf_blocks.len() == 0
            &&& (m.emdf_source == EmdfSource::AuxData) ==> m.emdf_blocks == spec_scan_emdf(
                m.aux_data,
                0,
                Seq::empty(),
            )
            &&& m.emdf_block_count == m.emdf_blocks.len() as usize
            &&& m.first_emdf_sync_offset == spec_first_sync(m.emdf_blocks)
            &&& m.aux_data == spec_skip_bytes(m.skip_fields) + m.trailing_aux_data
            &&& m.channel_mode < 8
            &&& m.fullband_channels as nat == spec_front_channels(m.channel_mode as nat)
                + spec_surround_channels(m.channel_mode as nat)
            &&& m.channels as nat == m.fullband_channels as nat + if m.lfe_on {
                1nat
            } else {
                0nat
            }
        }),
{
    reveal(spec_inspect_frame);
    reveal(spec_bsi);
    let frame = spec_frame_bytes(data, spec_frame_size(data)->Ok_0 as int);
    lemma_bsi_core_channels(BitCursor { data: frame, pos: 0, limit: (frame.len() * 8) as int });
    let size = spec_frame_size(data)->Ok_0;
    lemma_bits_value_bound(data, 21, 11);
    lemma2_to64();
    assert(size >= 2);
}

/// The audio-frame tables that `parse_audio_frame` returns cover every block.
proof fn lemma_parsed_frame_covers(audio: &ParsedAudioFrame, num_blocks: nat, n: nat)
    requires
        audio.info.coupling_in_use@.len() == num_blocks,
        audio.info.coupling_strategy_updates@.len() == num_blocks,
        audio.info.coupling_exponent_strategy@.len() == num_blocks,
        audio.info.channel_exponent_strategy@.len() == num_blocks,
        forall|i: int|
            0 <= i < num_blocks ==> audio.info.channel_exponent_strategy@[i]@.len() == n,
    ensures
        frame_covers_blocks(audio.info@, num_blocks, n),
{
    assert forall|b: int| 0 <= b < num_blocks implies #[trigger] frame_covers_block(
        audio.info@,
        b,
        n,
    ) by {
        assert(audio.info@.channel_exponent_strategy[b] == audio.info.channel_exponent_strategy@[b]@);
    }
}

/// Appends the bytes of `src` to `out`.
fn append_bytes(out: &mut Vec<u8>, src: &[u8])
    ensures
        final(out)@ == old(out)@ + src@,
{
    let ghost start = out@;
    let mut k: usize = 0;
    while k < src.len()
        invariant
            k <= src@.len(),
            out@ == start + src@.subrange(0, k as int),
        decreases src@.len() - k,
    {
        out.push(src[k]);
        k += 1;
        assert(out@ =~= start + src@.subrange(0, k as int));
    }
    assert(src@.subrange(0, src@.len() as int) =~= src@);
}

/// Skip fields recovered from EMDF sync words, with `fallback` as the status when none is.
fn recovery(frame: &[u8], fallback: AuxParseStatus) -> (r: (Vec<SkipFieldInfo>, AuxParseStatus))
    requires
        frame@.len() <= crate::bitreader::MAX_READER_BYTES,
    ensures
        skip_fields_view(r.0@) == spec_recovery(frame@, fallback).0,
        r.1 == spec_recovery(frame@, fallback).1,
        r.0@.len() <= frame@.len(),
        forall|i: int| 0 <= i < r.0@.len() ==> (#[trigger] r.0@[i]).bytes@.len() < 512,
{
    match recover_skip_fields_from_emdf_markers(frame) {
        Some(fields) => (fields, AuxParseStatus::SyncAnchoredRecovery),
        None => {
            let empty: Vec<SkipFieldInfo> = Vec::new();
            assert(skip_fields_view(empty@) =~= Seq::empty());
            (empty, fallback)
        },
    }
}

/// The skip fields of a frame and how they were obtained.
fn frame_skip_fields(
    frame: &[u8],
    core: &BsiCore,
    audio: &ParsedAudioFrame,
    end_bit: usize,
) -> (r: Result<(Vec<SkipFieldInfo>, AuxParseStatus), ParseError>)
    requires
        frame@.len() <= 4096,
        frame_covers_blocks(audio.info@, core.num_blocks as nat, core.fullband_channels as nat),
    ensures
        match spec_skip_outcome(
            frame@,
            *core,
            audio.info@,
            match audio.block_start_bit_offsets {
                Some(v) => Some(v@),
                None => None,
            },
            end_bit as int,
        ) {
            Ok((fields, status)) => r matches Ok((v, st)) && skip_fields_view(v@) == fields && st
                == status,
            Err(e) => r == Err::<(Vec<SkipFieldInfo>, AuxParseStatus), ParseError>(e),
        },
        r matches Ok((v, _)) ==> v@.len() <= 4096 && forall|i: int|
            0 <= i < v@.len() ==> (#[trigger] v@[i]).bytes@.len() < 512,
{
    if !audio.info.skip_field_syntax_enabled {
        let empty: Vec<SkipFieldInfo> = Vec::new();
        assert(skip_fields_view(empty@) =~= Seq::empty());
        return Ok((empty, AuxParseStatus::Disabled));
    }
    let offsets: Option<&[usize]> = match &audio.block_start_bit_offsets {
        Some(v) => Some(v.as_slice()),
        None => None,
    };
    if core.num_blocks == 1 || offsets.is_some() {
        match collect_skip_fields(
            frame,
            core.frame_type,
            core.num_blocks as usize,
            core.channel_mode,
            core.fullband_channels as usize,
            core.lfe_on,
            &audio.info,
            offsets,
            end_bit,
            core.sample_rate_index,
        ) {
            Ok(fields) => Ok((fields, AuxParseStatus::Extracted)),
            Err(e) => {
                let empty: Vec<SkipFieldInfo> = Vec::new();
                assert(skip_fields_view(empty@) =~= Seq::empty());
                match e {
                    ParseError::UnsupportedFeature(_) => Ok((empty, AuxParseStatus::UnsupportedSyntax)),
                    ParseError::ShortPacket => Ok((empty, AuxParseStatus::SyntaxMismatch)),
                    ParseError::InvalidHeader(field) => {
                        if same_text(field, "block-start-info") {
                            Ok((empty, AuxParseStatus::SyntaxMismatch))
                        } else {
                            Err(ParseError::InvalidHeader(field))
                        }
                    },
                    other => Err(other),
                }
            },
        }
    } else {
        match collect_skip_fields_without_block_start(
            frame,
            core.frame_type,
            core.num_blocks as usize,
            core.channel_mode,
            core.fullband_channels as usize,
            core.lfe_on,
            &audio.info,
            end_bit,
            core.sample_rate_index,
        ) {
            Ok(fields) => Ok((fields, AuxParseStatus::Extracted)),
            Err(e) => match e {
                ParseError::UnsupportedFeature(_) => Ok(
                    recovery(frame, AuxParseStatus::UnsupportedSyntax),
                ),
                ParseError::ShortPacket => Ok(recovery(frame, AuxParseStatus::NoBlockStartInfo)),
                ParseError::InvalidHeader(field) => {
                    if same_text(field, "block-end") || same_text(field, "mantissa-range") {
                        Ok(recovery(frame, AuxParseStatus::NoBlockStartInfo))
                    } else {
                        Err(ParseError::InvalidHeader(field))
                    }
                },
                other => Err(other),
            },
        }
    }
}

/// Where the EMDF blocks come from: the auxiliary data when it holds any, else the whole frame.
fn emdf_outcome(frame: &[u8], aux: &Vec<u8>) -> (r: (EmdfSource, Vec<EmdfBlockInfo>))
    requires
        frame@.len() <= crate::bitreader::MAX_READER_BYTES,
        aux@.len() <= crate::bitreader::MAX_READER_BYTES,
    ensures
        r.0 == spec_emdf_outcome(frame@, aux@).0,
        blocks_view(r.1@) == spec_emdf_outcome(frame@, aux@).1,
{
    if aux.len() == 0 {
        return scan_frame_for_emdf(frame);
    }
    let blocks = scan_emdf_blocks(aux.as_slice());
    if blocks.len() == 0 {
        scan_frame_for_emdf(frame)
    } else {
        (EmdfSource::AuxData, blocks)
    }
}

/// The skip fields, trailing auxiliary data, all auxiliary data and EMDF blocks of a frame.
fn frame_aux(frame: &[u8], core: &BsiCore, audio: &ParsedAudioFrame) -> (r: Result<
    (Vec<SkipFieldInfo>, AuxParseStatus, Vec<u8>, Vec<u8>, EmdfSource, Vec<EmdfBlockInfo>),
    ParseError,
>)
    requires
        frame@.len() <= 4096,
        frame_covers_blocks(audio.info@, core.num_blocks as nat, core.fullband_channels as nat),
    ensures
        match spec_aux_outcome(
            frame@,
            *core,
            audio.info@,
            match audio.block_start_bit_offsets {
                Some(v) => Some(v@),
                None => None,
            },
        ) {
            Ok((fields, status, trailing, aux, source, blocks)) => r matches Ok(
                (rf, rs, rt, ra, rsrc, rb),
            ) && skip_fields_view(rf@) == fields && rs == status && rt@ == trailing && ra@ == aux
                && rsrc == source && blocks_view(rb@) == blocks,
            Err(e) => r == Err::<
                (Vec<SkipFieldInfo>, AuxParseStatus, Vec<u8>, Vec<u8>, EmdfSource, Vec<EmdfBlockInfo>),
                ParseError,
            >(e),
        },
{
    let trailing = extract_trailing_aux_data(frame);
    let (skip_fields, aux_parse_status) = frame_skip_fields(
        frame,
        core,
        audio,
        trailing.start_bit_offset,
    )?;
    let mut aux_data: Vec<u8> = Vec::new();
    let mut k: usize = 0;
    while k < skip_fields.len()
        invariant
            k <= skip_fields@.len(),
            skip_fields@.len() <= 4096,
            forall|i: int| 0 <= i < skip_fields@.len() ==> (#[trigger] skip_fields@[i]).bytes@.len() < 512,
            aux_data@ == spec_skip_bytes(skip_fields_view(skip_fields@).take(k as int)),
            aux_data@.len() <= 512 * k,
        decreases skip_fields@.len() - k,
    {
        append_bytes(&mut aux_data, skip_fields[k].bytes.as_slice());
        proof {
            let sv = skip_fields_view(skip_fields@);
            assert(sv.take(k + 1).drop_last() =~= sv.take(k as int));
            assert(sv.take(k + 1).last() == skip_fields@[k as int]@);
        }
        k += 1;
    }
    proof {
        assert(skip_fields_view(skip_fields@).take(k as int) =~= skip_fields_view(skip_fields@));
    }
    append_bytes(&mut aux_data, trailing.bytes.as_slice());
    let (emdf_source, emdf_blocks) = emdf_outcome(frame, &aux_data);
    Ok((skip_fields, aux_parse_status, trailing.bytes, aux_data, emdf_source, emdf_blocks))
}

/// Inspects the frame `frame` of `frame_size` bytes with bitstream id `bitstream_id`.
fn inspect_frame(frame: &[u8], frame_size: usize, bitstream_id: u8) -> (r: Result<
    AccessUnitInfo,
    ParseError,
>)
    requires
        frame@.len() <= 4096,
        2 <= frame_size <= 4096,
    ensures
        match spec_inspect_frame(frame@, frame_size, bitstream_id) {
            Ok(m) => r matches Ok(info) && info@ == m,
            Err(e) => r == Err::<AccessUnitInfo, ParseError>(e),
        },
{
    proof {
        reveal(spec_inspect_frame);
    }
    let mut reader = BitReader::new(frame);
    let bsi = read_bsi(&mut reader)?;
    let body_start_bit_offset = reader.position();
    let core = bsi.core;
    let audio = parse_audio_frame(
        &mut reader,
        core.frame_type,
        frame_size / 2,
        core.num_blocks as usize,
        core.channel_mode,
        core.fullband_channels as usize,
        core.lfe_on,
    )?;
    proof {
        lemma_parsed_frame_covers(&audio, core.num_blocks as nat, core.fullband_channels as nat);
    }
    let (skip_fields, aux_parse_status, trailing_aux_data, aux_data, emdf_source, emdf_blocks) =
        frame_aux(frame, &core, &audio)?;
    let first_emdf_sync_offset = if emdf_blocks.len() > 0 {
        Some(emdf_blocks[0].sync_offset)
    } else {
        None
    };
    let extension_type_a = bsi.addbsi_bytes.len() > 0 && bsi.addbsi_bytes[0] & 1u8 != 0u8;
    let complexity_index_type_a = if extension_type_a && bsi.addbsi_bytes.len() > 1 {
        bsi.addbsi_bytes[1]
    } else {
        0
    };
    let emdf_block_count = emdf_blocks.len();
    Ok(
        AccessUnitInfo {
            frame_size,
            bitstream_id,
            frame_type: core.frame_type,
            substreamid: core.substreamid,
            sample_rate: core.sample_rate,
            num_blocks: core.num_blocks,
            channel_mode: core.channel_mode,
            channels: core.channels,
            fullband_channels: core.fullband_channels,
            lfe_on: core.lfe_on,
            addbsi_present: bsi.addbsi_present,
            extension_type_a,
            complexity_index_type_a,
            mixing_metadata_present: bsi.mixing_metadata_present,
            informational_metadata_present: bsi.informational_metadata_present,
            addbsi_bytes: bsi.addbsi_bytes,
            body_start_bit_offset,
            audio_frame: audio.info,
            skip_fields,
            trailing_aux_data,
            aux_data,
            aux_parse_status,
            emdf_source,
            emdf_blocks,
            emdf_block_count,
            first_emdf_sync_offset,
        },
    )
}

/// Parses one complete access unit without keeping any cross-frame state: the frame header,
/// the frame-level audio syntax, the skip fields and trailing auxiliary data, and the EMDF
/// blocks they carry.
pub fn inspect_access_unit(data: &[u8]) -> (r: Result<AccessUnitInfo, ParseError>)
    ensures
        match spec_inspect(data@) {
            Ok(m) => r matches Ok(info) && info@ == m,
            Err(e) => r == Err::<AccessUnitInfo, ParseError>(e),
        },
{
    let (frame_size, bitstream_id) = read_frame_size(data)?;
    let frame_len = if frame_size < data.len() {
        frame_size
    } else {
        data.len()
    };
    let frame = slice_subrange(data, 0, frame_len);
    inspect_frame(frame, frame_size, bitstream_id)
}

/// All payloads of the EMDF blocks `blocks`, in block order.
pub open spec fn spec_all_payloads(blocks: Seq<EmdfBlockModel>) -> Seq<EmdfPayloadModel>
    decreases blocks.len(),
{
    if blocks.len() == 0 {
        Seq::empty()
    } else {
        spec_all_payloads(blocks.drop_last()) + blocks.last().payloads
    }
}

/// Number of payloads in `payloads` with id `id`.
pub open spec fn spec_count_id(payloads: Seq<EmdfPayloadModel>, id: u8) -> nat
    decreases payloads.len(),
{
    if payloads.len() == 0 {
        0
    } else {
        spec_count_id(payloads.drop_last(), id) + if payloads.last().info.payload_id == id {
            1nat
        } else {
            0nat
        }
    }
}

proof fn lemma_count_id_bound(payloads: Seq<EmdfPayloadModel>, id: u8)
    ensures
        spec_count_id(payloads, id) <= payloads.len(),
    decreases payloads.len(),
{
    if payloads.len() > 0 {
        lemma_count_id_bound(payloads.drop_last(), id);
    }
}

impl AccessUnitInfo {
    /// All EMDF payloads, in block order.
    pub fn payloads(&self) -> (r: Vec<&EmdfPayloadInfo>)
        ensures
            r@.len() == spec_all_payloads(self@.emdf_blocks).len(),
            forall|i: int| 0 <= i < r@.len() ==> (#[trigger] r@[i])@ == spec_all_payloads(
                self@.emdf_blocks,
            )[i],
    {
        let ghost blocks = self@.emdf_blocks;
        let mut out: Vec<&EmdfPayloadInfo> = Vec::new();
        let mut b: usize = 0;
        assert(blocks.take(0) =~= Seq::empty());
        while b < self.emdf_blocks.len()
            invariant
                blocks == self@.emdf_blocks,
                b <= self.emdf_blocks@.len(),
                out@.len() == spec_all_payloads(blocks.take(b as int)).len(),
                forall|i: int| 0 <= i < out@.len() ==> (#[trigger] out@[i])@ == spec_all_payloads(
                    blocks.take(b as int),
                )[i],
            decreases self.emdf_blocks@.len() - b,
        {
            let block = &self.emdf_blocks[b];
            let ghost before = spec_all_payloads(blocks.take(b as int));
            let ghost pv = blocks[b as int].payloads;
            assert(pv == crate::syncframe::emdf::payloads_view(block.payloads@));
            let mut k: usize = 0;
            while k < block.payloads.len()
                invariant
                    b < self.emdf_blocks@.len(),
                    block == &self.emdf_blocks@[b as int],
                    pv == crate::syncframe::emdf::payloads_view(block.payloads@),
                    k <= block.payloads@.len(),
                    out@.len() == before.len() + k,
                    forall|i: int| 0 <= i < out@.len() ==> (#[trigger] out@[i])@ == (before
                        + pv.take(k as int))[i],
                decreases block.payloads@.len() - k,
            {
                out.push(&block.payloads[k]);
                k += 1;
            }
            proof {
                assert(blocks.take(b + 1).drop_last() =~= blocks.take(b as int));
                assert(pv.take(k as int) =~= pv);
            }
            b += 1;
        }
        assert(blocks.take(b as int) =~= blocks);
        out
    }

    /// Number of EMDF payloads with id `id`.
    fn count_payload_id(&self, id: u8) -> (r: usize)
        ensures
            r == spec_count_id(spec_all_payloads(self@.emdf_blocks), id),
    {
        let payloads = self.payloads();
        let ghost all = spec_all_payloads(self@.emdf_blocks);
        let mut count: usize = 0;
        let mut i: usize = 0;
        assert(all.take(0) =~= Seq::empty());
        while i < payloads.len()
            invariant
                payloads@.len() == all.len(),
                forall|j: int| 0 <= j < payloads@.len() ==> (#[trigger] payloads@[j])@ == all[j],
                i <= payloads@.len(),
                count == spec_count_id(all.take(i as int), id),
                count <= i,
            decreases payloads@.len() - i,
        {
            assert(all.take(i + 1).drop_last() =~= all.take(i as int));
            assert(payloads@[i as int]@ == all[i as int]);
            if payloads[i].info.payload_id == id {
                count += 1;
            }
            i += 1;
        }
        assert(all.take(i as int) =~= all);
        count
    }

    /// Number of JOC payloads (id 14) in this access unit.
    pub fn joc_payload_count(&self) -> (r: usize)
        ensures
            r == spec_count_id(spec_all_payloads(self@.emdf_blocks), 14),
    {
        self.count_payload_id(14)
    }

    /// Number of OAMD payloads (id 11) in this access unit.
    pub fn oamd_payload_count(&self) -> (r: usize)
        ensures
            r == spec_count_id(spec_all_payloads(self@.emdf_blocks), 11),
    {
        self.count_payload_id(11)
    }

    /// Total bytes of the recovered skip fields.
    pub fn skip_field_bytes_len(&self) -> (r: usize)
        requires
            spec_skip_bytes(self@.skip_fields).len() <= usize::MAX,
        ensures
            r == spec_skip_bytes(self@.skip_fields).len(),
    {
        let ghost fields = self@.skip_fields;
        let mut total: usize = 0;
        let mut i: usize = 0;
        assert(fields.take(0) =~= Seq::empty());
        while i < self.skip_fields.len()
            invariant
                fields == self@.skip_fields,
                spec_skip_bytes(fields).len() <= usize::MAX,
                i <= self.skip_fields@.len(),
                total == spec_skip_bytes(fields.take(i as int)).len(),
            decreases self.skip_fields@.len() - i,
        {
            assert(fields.take(i + 1).drop_last() =~= fields.take(i as int));
            assert(fields.take(i + 1).last() == self.skip_fields@[i as int]@);
            proof {
                lemma_skip_bytes_prefix(fields, i as int + 1);
            }
            total += self.skip_fields[i].bytes.len();
            i += 1;
        }
        assert(fields.take(i as int) =~= fields);
        total
    }
}

/// The skip bytes of a prefix of the fields are no more than those of all fields.
proof fn lemma_skip_bytes_prefix(fields: Seq<SkipFieldModel>, k: int)
    requires
        0 <= k <= fields.len(),
    ensures
        spec_skip_bytes(fields.take(k)).len() <= spec_skip_bytes(fields).len(),
    decreases fields.len() - k,
{
    if k < fields.len() {
        lemma_skip_bytes_prefix(fields, k + 1);
        assert(fields.take(k + 1).drop_last() =~= fields.take(k));
    } else {
        assert(fields.take(k) =~= fields);
    }
}

} // verus!
