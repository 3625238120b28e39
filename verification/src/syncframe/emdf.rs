//! EMDF container scanning and the trailing auxiliary data of a syncframe.

use crate::bitreader::{bit_at, bits_value, BitCursor, BitReader, MAX_READER_BYTES};
use crate::syncframe::types::{EmdfBlockInfo, EmdfPayloadInfo, EmdfSource, PayloadInfo};
use vstd::arithmetic::power2::{lemma2_to64, pow2};
use vstd::prelude::*;

verus! {

/// Trailing auxiliary data found in the syncframe footer.
#[derive(Debug, Clone, PartialEq, Eq)]
pub struct TrailingAuxDataInfo {
    pub start_bit_offset: usize,
    pub bytes: Vec<u8>,
}

/// The auxiliary data announced by the last 32 bits of a frame: a 14-bit byte count and a
/// presence bit. Returns where the data starts (the footer start when there is none) and the
/// bytes themselves.
pub open spec fn spec_trailing_aux(frame: Seq<u8>) -> (int, Seq<u8>) {
    let bits = frame.len() * 8;
    if bits < 32 {
        (0, Seq::empty())
    } else {
        let trailer_start = bits - 32;
        let aux_length = bits_value(frame, trailer_start, 14);
        let present = bits_value(frame, trailer_start + 14, 1) == 1;
        if !present || aux_length * 8 > trailer_start {
            (trailer_start, Seq::empty())
        } else {
            let start = trailer_start - aux_length * 8;
            (start, BitCursor { data: frame, pos: start, limit: bits as int }.bytes_at(aux_length))
        }
    }
}

/// Locates and copies the auxiliary data described by the syncframe footer.
pub fn extract_trailing_aux_data(frame: &[u8]) -> (res: TrailingAuxDataInfo)
    requires
        frame@.len() <= MAX_READER_BYTES,
    ensures
        res.start_bit_offset as int == spec_trailing_aux(frame@).0,
        res.bytes@ == spec_trailing_aux(frame@).1,
        res.bytes@.len() <= frame@.len(),
{
    let frame_bits = frame.len() * 8;
    let trailer_start = if frame_bits >= 32 {
        frame_bits - 32
    } else {
        0
    };
    if frame_bits < 32 {
        return TrailingAuxDataInfo { start_bit_offset: trailer_start, bytes: Vec::new() };
    }
    let mut footer = BitReader::with_offset(frame, trailer_start);
    let aux_length = match footer.read_bits(14) {
        Some(length) => length as usize,
        None => {
            return TrailingAuxDataInfo { start_bit_offset: trailer_start, bytes: Vec::new() };
        },
    };
    let aux_present = match footer.read_bit() {
        Some(b) => b,
        None => false,
    };
    proof {
        crate::bitreader::lemma_bits_value_bound(frame@, trailer_start as int, 14);
        crate::bitreader::lemma_bits_value_bound(frame@, trailer_start as int + 14, 1);
        lemma2_to64();
    }
    if !aux_present {
        return TrailingAuxDataInfo { start_bit_offset: trailer_start, bytes: Vec::new() };
    }
    if aux_length > trailer_start / 8 || aux_length * 8 > trailer_start {
        return TrailingAuxDataInfo { start_bit_offset: trailer_start, bytes: Vec::new() };
    }
    let aux_start_bit_offset = trailer_start - aux_length * 8;
    let mut reader = BitReader::with_offset(frame, aux_start_bit_offset);
    let bytes = match reader.read_bytes(aux_length) {
        Some(b) => b,
        None => Vec::new(),
    };
    if bytes.len() != aux_length {
        return TrailingAuxDataInfo { start_bit_offset: trailer_start, bytes: Vec::new() };
    }
    TrailingAuxDataInfo { start_bit_offset: aux_start_bit_offset, bytes }
}

/// Mathematical view of [`EmdfPayloadInfo`].
pub struct EmdfPayloadModel {
    pub info: PayloadInfo,
    pub bytes: Seq<u8>,
}

/// Mathematical view of [`EmdfBlockInfo`].
pub struct EmdfBlockModel {
    pub sync_offset: usize,
    pub payloads: Seq<EmdfPayloadModel>,
}

impl View for EmdfPayloadInfo {
    type V = EmdfPayloadModel;

    open spec fn view(&self) -> EmdfPayloadModel {
        EmdfPayloadModel { info: self.info, bytes: self.bytes@ }
    }
}

impl View for EmdfBlockInfo {
    type V = EmdfBlockModel;

    open spec fn view(&self) -> EmdfBlockModel {
        EmdfBlockModel {
            sync_offset: self.sync_offset,
            payloads: payloads_view(self.payloads@),
        }
    }
}

/// View of a sequence of EMDF blocks.
pub open spec fn blocks_view(blocks: Seq<EmdfBlockInfo>) -> Seq<EmdfBlockModel> {
    blocks.map_values(|b: EmdfBlockInfo| b@)
}

/// View of a sequence of EMDF payloads.
pub open spec fn payloads_view(payloads: Seq<EmdfPayloadInfo>) -> Seq<EmdfPayloadModel> {
    payloads.map_values(|p: EmdfPayloadInfo| p@)
}

/// An EMDF field that is escaped into `variable_bits` when it holds its all-ones value.
#[verifier::opaque]
pub open spec fn spec_escaped(c: BitCursor, width: nat, escape: nat, var_width: nat) -> Option<
    (int, BitCursor),
> {
    match c.read(width) {
        None => None,
        Some((v, c1)) => if v == escape {
            match c1.read_variable(var_width) {
                None => None,
                Some((x, c2)) => Some((escape + x, c2)),
            }
        } else {
            Some((v as int, c1))
        },
    }
}

/// Flag, then a field skipped when the flag is set.
#[verifier::opaque]
pub open spec fn spec_opt_variable(c: BitCursor, var_width: nat) -> Option<BitCursor> {
    match c.read_flag() {
        None => None,
        Some((f, c1)) => if f {
            match c1.read_variable(var_width) {
                None => None,
                Some((_, c2)) => Some(c2),
            }
        } else {
            Some(c1)
        },
    }
}

/// Timing fields of a payload header: the alignment flags and what they guard.
#[verifier::opaque]
pub open spec fn spec_payload_alignment(c: BitCursor, has_sample_offset: bool) -> Option<
    BitCursor,
> {
    match c.read_flag() {
        None => None,
        Some((not_aligned, c1)) => if not_aligned {
            Some(c1)
        } else {
            let aligned: Option<(bool, BitCursor)> = if !has_sample_offset {
                match c1.read_flag() {
                    None => None,
                    Some((a, c2)) => if a {
                        match c2.skip(2) {
                            None => None,
                            Some(c3) => Some((true, c3)),
                        }
                    } else {
                        Some((false, c2))
                    },
                }
            } else {
                Some((false, c1))
            };
            match aligned {
                None => None,
                Some((a, c4)) => if has_sample_offset || a {
                    c4.skip(7)
                } else {
                    Some(c4)
                },
            }
        },
    }
}

/// Header fields of one payload after its id: sample offset, the optional duration, group id
/// and code-data fields, and the alignment flags.
#[verifier::opaque]
pub open spec fn spec_payload_config(c: BitCursor) -> Option<(Option<u16>, BitCursor)> {
    match c.read_flag() {
        None => None,
        Some((has_sample_offset, c1)) => {
            let so: Option<(Option<u16>, BitCursor)> = if has_sample_offset {
                match c1.read(12) {
                    None => None,
                    Some((v, c2)) => Some((Some((v / 2) as u16), c2)),
                }
            } else {
                Some((None, c1))
            };
            match so {
                None => None,
                Some((sample_offset, c2)) => match spec_opt_variable(c2, 11) {
                    None => None,
                    Some(c3) => match spec_opt_variable(c3, 2) {
                        None => None,
                        Some(c4) => match c4.read_flag() {
                            None => None,
                            Some((f, c5)) => {
                                let c6 = if f {
                                    c5.skip(8)
                                } else {
                                    Some(c5)
                                };
                                match c6 {
                                    None => None,
                                    Some(c7) => match spec_payload_alignment(
                                        c7,
                                        has_sample_offset,
                                    ) {
                                        None => None,
                                        Some(c8) => Some((sample_offset, c8)),
                                    },
                                }
                            },
                        },
                    },
                },
            }
        },
    }
}

/// A payload's sample offset is present exactly when its `smploffste` flag (the first bit) is
/// set, and then it is the 11-bit `smploffst` field: the first eleven of the twelve bits after
/// the flag, read most significant first; so it is always below 2048.
pub proof fn lemma_payload_sample_offset_is_11_bits(c: BitCursor)
    ensures
        spec_payload_config(c) matches Some((sample_offset, _)) ==> {
            &&& c.can_read(1)
            &&& (bits_value(c.data, c.pos, 1) == 1) ==> sample_offset == Some(
                bits_value(c.data, c.pos + 1, 11) as u16,
            )
            &&& (bits_value(c.data, c.pos, 1) != 1) ==> sample_offset is None
            &&& sample_offset matches Some(o) ==> o < 2048
        },
{
    reveal(spec_payload_config);
    crate::bitreader::lemma_bits_value_split(c.data, c.pos + 1, 11, 1);
    crate::bitreader::lemma_bits_value_bound(c.data, c.pos + 1, 11);
    crate::bitreader::lemma_bits_value_bound(c.data, c.pos + 12, 1);
    lemma2_to64();
}

/// Every payload that the EMDF payload loop parses carries a sample offset below 2048, if any:
/// the 11-bit `smploffst` field of its configuration.
pub proof fn lemma_emdf_payload_sample_offset_bound(c: BitCursor, end: int, block_index: usize)
    ensures
        spec_emdf_payload(c, end, block_index) matches Some(PayloadStep::Payload(p, _)) ==> (
        p.info.sample_offset matches Some(o) ==> o < 2048),
{
    reveal(spec_emdf_payload);
    match spec_escaped(c, 5, 0x1F, 5) {
        Some((id, c1)) => {
            lemma_payload_sample_offset_is_11_bits(c1);
        },
        None => {},
    }
}

/// One step of the payload loop of an EMDF block.
pub enum PayloadStep {
    /// The terminating zero payload id.
    End,
    /// One payload, and the cursor after it.
    Payload(EmdfPayloadModel, BitCursor),
}

/// Parses one payload of the EMDF block with index `block_index` ending at bit `end`.
#[verifier::opaque]
pub open spec fn spec_emdf_payload(c: BitCursor, end: int, block_index: usize) -> Option<PayloadStep> {
    match spec_escaped(c, 5, 0x1F, 5) {
        None => None,
        Some((id, c1)) => if id == 0 {
            Some(PayloadStep::End)
        } else {
            match spec_payload_config(c1) {
                None => None,
                Some((sample_offset, c2)) => match c2.read_variable(8) {
                    None => None,
                    Some((size, c3)) => if c3.pos + size * 8 > end {
                        None
                    } else {
                        match c3.read_bytes(size as nat) {
                            None => None,
                            Some((bytes, c4)) => Some(
                                PayloadStep::Payload(
                                    EmdfPayloadModel {
                                        info: PayloadInfo {
                                            emdf_block_index: block_index,
                                            payload_id: (id % 256) as u8,
                                            payload_size_bytes: size as usize,
                                            sample_offset,
                                        },
                                        bytes,
                                    },
                                    c4,
                                ),
                            ),
                        }
                    },
                },
            }
        },
    }
}

/// `c1` lies at or after `c`, over the same data and limit, and within the limit.
pub open spec fn follows(c: BitCursor, c1: BitCursor) -> bool {
    c1.data == c.data && c1.limit == c.limit && c.pos <= c1.pos <= c1.limit
}

/// A successful `variable_bits` read lands strictly after the cursor, with a `u32` value.
pub proof fn lemma_variable_follows(c: BitCursor, n: nat)
    ensures
        c.read_variable(n) matches Some((v, c1)) ==> follows(c, c1) && c1.pos > c.pos && 0 <= v
            <= u32::MAX,
{
    crate::bitreader::lemma_read_variable_advances(c, n, 0);
}

/// An escaped field lands at least `width` bits after the cursor.
pub proof fn lemma_escaped_follows(c: BitCursor, width: nat, escape: nat, var_width: nat)
    ensures
        spec_escaped(c, width, escape, var_width) matches Some((_, c1)) ==> follows(c, c1)
            && c1.pos >= c.pos + width,
{
    reveal(spec_escaped);
    if let Some((v, c1)) = c.read(width) {
        lemma_variable_follows(c1, var_width);
    }
}

/// The optional variable field lands after the cursor.
pub proof fn lemma_opt_variable_follows(c: BitCursor, var_width: nat)
    ensures
        spec_opt_variable(c, var_width) matches Some(c1) ==> follows(c, c1),
{
    reveal(spec_opt_variable);
    if let Some((f, c1)) = c.read_flag() {
        lemma_variable_follows(c1, var_width);
    }
}

/// The alignment fields land after the cursor.
pub proof fn lemma_alignment_follows(c: BitCursor, has_sample_offset: bool)
    ensures
        spec_payload_alignment(c, has_sample_offset) matches Some(c1) ==> follows(c, c1),
{
    reveal(spec_payload_alignment);
}

/// The payload configuration fields land after the cursor.
pub proof fn lemma_config_follows(c: BitCursor)
    ensures
        spec_payload_config(c) matches Some((_, c1)) ==> follows(c, c1),
{
    reveal(spec_payload_config);
    if let Some((f, c1)) = c.read_flag() {
        let so: Option<(Option<u16>, BitCursor)> = if f {
            match c1.read(12) {
                None => None,
                Some((v, c2)) => Some((Some((v / 2) as u16), c2)),
            }
        } else {
            Some((None, c1))
        };
        if let Some((_, c2)) = so {
            lemma_opt_variable_follows(c2, 11);
            if let Some(c3) = spec_opt_variable(c2, 11) {
                lemma_opt_variable_follows(c3, 2);
                if let Some(c4) = spec_opt_variable(c3, 2) {
                    if let Some((g, c5)) = c4.read_flag() {
                        let c6 = if g {
                            c5.skip(8)
                        } else {
                            Some(c5)
                        };
                        if let Some(c7) = c6 {
                            lemma_alignment_follows(c7, f);
                        }
                    }
                }
            }
        }
    }
}

/// A parsed payload moves the cursor forward over the same data and limit.
pub proof fn lemma_emdf_payload_advances(c: BitCursor, end: int, block_index: usize)
    ensures
        spec_emdf_payload(c, end, block_index) matches Some(PayloadStep::Payload(_, c1)) ==> follows(
            c,
            c1,
        ) && c1.pos > c.pos,
{
    reveal(spec_emdf_payload);
    lemma_escaped_follows(c, 5, 0x1F, 5);
    if let Some((id, c1)) = spec_escaped(c, 5, 0x1F, 5) {
        lemma_config_follows(c1);
        if let Some((so, c2)) = spec_payload_config(c1) {
            lemma_variable_follows(c2, 8);
        }
    }
}

/// The payloads of an EMDF block, from cursor `c` to bit `end`, appended to `acc`.
#[verifier::opaque]
pub open spec fn spec_emdf_payloads(
    c: BitCursor,
    end: int,
    block_index: usize,
    acc: Seq<EmdfPayloadModel>,
) -> Option<Seq<EmdfPayloadModel>>
    decreases c.limit - c.pos,
{
    if c.pos >= end {
        Some(acc)
    } else {
        match spec_emdf_payload(c, end, block_index) {
            None => None,
            Some(PayloadStep::End) => Some(acc),
            Some(PayloadStep::Payload(p, c1)) => {
                proof {
                    lemma_emdf_payload_advances(c, end, block_index);
                }
                spec_emdf_payloads(c1, end, block_index, acc.push(p))
            },
        }
    }
}

/// The EMDF block whose sync word starts at byte `sync_offset` of `data`, and the byte offset
/// just after it. Only version 0 with key id 0 is accepted, and the block needs a payload.
pub open spec fn spec_parse_emdf_block(data: Seq<u8>, sync_offset: int, block_index: usize) -> Option<
    (EmdfBlockModel, int),
> {
    let c = BitCursor { data, pos: sync_offset * 8, limit: (data.len() * 8) as int };
    match c.read(16) {
        None => None,
        Some((sync, c1)) => if sync != 0x5838 {
            None
        } else {
            match c1.read(16) {
                None => None,
                Some((length, c2)) => {
                    let end = c2.pos + length * 8;
                    if end > data.len() * 8 {
                        None
                    } else {
                        match spec_escaped(c2, 2, 3, 2) {
                            None => None,
                            Some((version, c3)) => if version != 0 {
                                None
                            } else {
                                match spec_escaped(c3, 3, 7, 3) {
                                    None => None,
                                    Some((key, c4)) => if key != 0 {
                                        None
                                    } else {
                                        match spec_emdf_payloads(
                                            c4,
                                            end,
                                            block_index,
                                            Seq::empty(),
                                        ) {
                                            None => None,
                                            Some(payloads) => if payloads.len() == 0 {
                                                None
                                            } else {
                                                Some(
                                                    (
                                                        EmdfBlockModel {
                                                            sync_offset: sync_offset as usize,
                                                            payloads,
                                                        },
                                                        (end + 7) / 8,
                                                    ),
                                                )
                                            },
                                        }
                                    },
                                }
                            },
                        }
                    }
                },
            }
        },
    }
}

/// A parsed block ends at least four bytes after its sync word, within the data.
pub proof fn lemma_emdf_block_advances(data: Seq<u8>, sync_offset: int, block_index: usize)
    requires
        0 <= sync_offset,
    ensures
        spec_parse_emdf_block(data, sync_offset, block_index) matches Some((_, next)) ==> next
            >= sync_offset + 4 && next <= data.len(),
{
}

/// All EMDF blocks found by scanning `data` from byte `offset` on, appended to `acc`: at each
/// byte, a block parsed at a `0x5838` sync word is taken and the scan resumes after it;
/// otherwise the scan moves one byte on.
pub open spec fn spec_scan_emdf(data: Seq<u8>, offset: int, acc: Seq<EmdfBlockModel>) -> Seq<
    EmdfBlockModel,
>
    decreases data.len() - offset,
{
    if offset < 0 || offset + 4 > data.len() {
        acc
    } else if data[offset] == 0x58 && data[offset + 1] == 0x38 && spec_parse_emdf_block(
        data,
        offset,
        acc.len() as usize,
    ) is Some {
        let (block, next) = spec_parse_emdf_block(data, offset, acc.len() as usize)->Some_0;
        proof {
            lemma_emdf_block_advances(data, offset, acc.len() as usize);
        }
        spec_scan_emdf(data, next, acc.push(block))
    } else {
        spec_scan_emdf(data, offset + 1, acc)
    }
}

/// Reads a field of `width` bits that escapes into `variable_bits(var_width)` at `escape`.
fn read_escaped(reader: &mut BitReader, width: usize, escape: u32, var_width: usize) -> (r: Option<
    u64,
>)
    requires
        old(reader).wf(),
        1 <= width <= 8,
        1 <= var_width <= 16,
    ensures
        final(reader).wf(),
        match spec_escaped(old(reader)@, width as nat, escape as nat, var_width as nat) {
            Some((v, c)) => r matches Some(x) && x as int == v && final(reader)@ == c,
            None => r.is_none(),
        },
{
    proof {
        reveal(spec_escaped);
        lemma2_to64();
        crate::bitreader::lemma_bits_value_bound(reader@.data, reader@.pos, width as nat);
        if width < 8 {
            vstd::arithmetic::power2::lemma_pow2_strictly_increases(width as nat, 8);
        }
    }
    let v = reader.read_bits(width)?;
    if v == escape {
        proof {
            lemma_variable_follows(reader@, var_width as nat);
        }
        let x = reader.read_variable_bits(var_width)?;
        Some(escape as u64 + x as u64)
    } else {
        Some(v as u64)
    }
}

/// Reads a flag and, when it is set, skips a `variable_bits(var_width)` field.
fn skip_opt_variable(reader: &mut BitReader, var_width: usize) -> (r: Option<()>)
    requires
        old(reader).wf(),
        1 <= var_width <= 16,
    ensures
        final(reader).wf(),
        match spec_opt_variable(old(reader)@, var_width as nat) {
            Some(c) => r.is_some() && final(reader)@ == c,
            None => r.is_none(),
        },
{
    proof {
        reveal(spec_opt_variable);
    }
    if reader.read_bit()? {
        reader.skip_variable_bits(var_width)?;
    }
    Some(())
}

/// Skips the alignment flags of a payload header.
fn skip_payload_alignment(reader: &mut BitReader, has_sample_offset: bool) -> (r: Option<()>)
    requires
        old(reader).wf(),
    ensures
        final(reader).wf(),
        match spec_payload_alignment(old(reader)@, has_sample_offset) {
            Some(c) => r.is_some() && final(reader)@ == c,
            None => r.is_none(),
        },
{
    proof {
        reveal(spec_payload_alignment);
    }
    let frame_not_aligned = reader.read_bit()?;
    if !frame_not_aligned {
        let mut frame_aligned = false;
        if !has_sample_offset {
            frame_aligned = reader.read_bit()?;
            if frame_aligned {
                reader.skip_bits(2)?;
            }
        }
        if has_sample_offset || frame_aligned {
            reader.skip_bits(7)?;
        }
    }
    Some(())
}

/// Reads the header fields of a payload that follow its id; returns the sample offset.
fn read_payload_config(reader: &mut BitReader) -> (r: Option<Option<u16>>)
    requires
        old(reader).wf(),
    ensures
        final(reader).wf(),
        match spec_payload_config(old(reader)@) {
            Some((so, c)) => r == Some(so) && final(reader)@ == c,
            None => r.is_none(),
        },
{
    proof {
        reveal(spec_payload_config);
    }
    let has_sample_offset = reader.read_bit()?;
    let sample_offset = if has_sample_offset {
        proof {
            crate::bitreader::lemma_bits_value_bound(reader@.data, reader@.pos, 12);
        }
        let v = reader.read_bits(12)?;
        proof {
            lemma2_to64();
        }
        assert(v >> 1 == v / 2) by (bit_vector);
        Some((v >> 1) as u16)
    } else {
        None
    };
    skip_opt_variable(reader, 11)?;
    skip_opt_variable(reader, 2)?;
    if reader.read_bit()? {
        reader.skip_bits(8)?;
    }
    skip_payload_alignment(reader, has_sample_offset)?;
    Some(sample_offset)
}

/// Reads one payload of an EMDF block that ends at bit `end`: `Some(None)` for the
/// terminating zero id, `None` when the syntax breaks off.
fn read_emdf_payload(reader: &mut BitReader, end: usize, block_index: usize) -> (r: Option<
    Option<EmdfPayloadInfo>,
>)
    requires
        old(reader).wf(),
    ensures
        final(reader).wf(),
        match spec_emdf_payload(old(reader)@, end as int, block_index) {
            None => r.is_none(),
            Some(PayloadStep::End) => r matches Some(None),
            Some(PayloadStep::Payload(p, c)) => r matches Some(Some(q)) && q@ == p
                && final(reader)@ == c,
        },
{
    proof {
        reveal(spec_emdf_payload);
    }
    let payload_id = read_escaped(reader, 5, 0x1F, 5)?;
    if payload_id == 0 {
        return Some(None);
    }
    let sample_offset = read_payload_config(reader)?;
    proof {
        lemma_variable_follows(reader@, 8);
        reader.lemma_limit_bound();
    }
    let payload_size_bytes = reader.read_variable_bits(8)?;
    if reader.position() as u64 + payload_size_bytes as u64 * 8 > end as u64 {
        return None;
    }
    let bytes = reader.read_bytes(payload_size_bytes as usize)?;
    let info = PayloadInfo {
        emdf_block_index: block_index,
        payload_id: (payload_id % 256) as u8,
        payload_size_bytes: payload_size_bytes as usize,
        sample_offset,
    };
    Some(Some(EmdfPayloadInfo { info, bytes }))
}

/// Parses the EMDF block whose sync word starts at byte `sync_offset` of `frame`; returns the
/// block and the byte offset just after it.
fn parse_emdf_block(frame: &[u8], sync_offset: usize, block_index: usize) -> (r: Option<
    (EmdfBlockInfo, usize),
>)
    requires
        frame@.len() <= MAX_READER_BYTES,
    ensures
        match spec_parse_emdf_block(frame@, sync_offset as int, block_index) {
            None => r.is_none(),
            Some((b, next)) => r matches Some((blk, n)) && blk@ == b && n == next,
        },
{
    if sync_offset >= frame.len() {
        return None;
    }
    let mut reader = BitReader::with_offset(frame, sync_offset * 8);
    proof {
        crate::bitreader::lemma_bits_value_bound(frame@, sync_offset * 8, 16);
        crate::bitreader::lemma_bits_value_bound(frame@, sync_offset * 8 + 16, 16);
        lemma2_to64();
    }
    let sync = reader.read_bits(16)?;
    if sync != 0x5838 {
        return None;
    }
    let length = reader.read_bits(16)?;
    let block_end = reader.position() as u64 + length as u64 * 8;
    if block_end > frame.len() as u64 * 8 {
        return None;
    }
    let block_end_bit = block_end as usize;
    proof {
        lemma_escaped_follows(reader@, 2, 3, 2);
    }
    let version = read_escaped(&mut reader, 2, 3, 2)?;
    if version != 0 {
        return None;
    }
    proof {
        lemma_escaped_follows(reader@, 3, 7, 3);
    }
    let key = read_escaped(&mut reader, 3, 7, 3)?;
    if key != 0 {
        return None;
    }
    let ghost start = reader@;
    let ghost total = spec_emdf_payloads(start, block_end_bit as int, block_index, Seq::empty());
    let mut payloads: Vec<EmdfPayloadInfo> = Vec::new();
    assert(payloads_view(payloads@) =~= Seq::empty());
    proof {
        reveal(spec_emdf_payloads);
    }
    loop
        invariant_except_break
            reader.wf(),
            reader@.data == frame@,
            reader@.limit == frame@.len() * 8,
            total is None ==> spec_parse_emdf_block(frame@, sync_offset as int, block_index) is None,
            total == spec_emdf_payloads(
                reader@,
                block_end_bit as int,
                block_index,
                payloads_view(payloads@),
            ),
        ensures
            total == Some(payloads_view(payloads@)),
        decreases reader@.limit - reader@.pos,
    {
        proof {
            reveal(spec_emdf_payloads);
            lemma_emdf_payload_advances(reader@, block_end_bit as int, block_index);
        }
        if reader.position() >= block_end_bit {
            break ;
        }
        let ghost before = payloads_view(payloads@);
        match read_emdf_payload(&mut reader, block_end_bit, block_index) {
            None => return None,
            Some(None) => break ,
            Some(Some(p)) => {
                payloads.push(p);
                assert(payloads_view(payloads@) =~= before.push(p@));
            },
        }
    }
    if payloads.len() == 0 {
        return None;
    }
    Some((EmdfBlockInfo { sync_offset, payloads }, (block_end_bit + 7) / 8))
}

/// Scans `data` byte by byte for EMDF blocks, resuming after each block that parses.
pub fn scan_emdf_blocks(data: &[u8]) -> (blocks: Vec<EmdfBlockInfo>)
    requires
        data@.len() <= MAX_READER_BYTES,
    ensures
        blocks_view(blocks@) == spec_scan_emdf(data@, 0, Seq::empty()),
        blocks@.len() <= data@.len(),
{
    let ghost total = spec_scan_emdf(data@, 0, Seq::empty());
    let mut blocks: Vec<EmdfBlockInfo> = Vec::new();
    let mut offset: usize = 0;
    assert(blocks_view(blocks@) =~= Seq::empty());
    while offset + 4 <= data.len()
        invariant
            data@.len() <= MAX_READER_BYTES,
            offset <= data@.len(),
            blocks@.len() <= offset,
            total == spec_scan_emdf(data@, offset as int, blocks_view(blocks@)),
        decreases data@.len() - offset,
    {
        if data[offset] == 0x58 && data[offset + 1] == 0x38 {
            proof {
                lemma_emdf_block_advances(data@, offset as int, blocks.len());
            }
            let ghost before = blocks_view(blocks@);
            match parse_emdf_block(data, offset, blocks.len()) {
                Some((block, next_offset)) => {
                    blocks.push(block);
                    assert(blocks_view(blocks@) =~= before.push(block@));
                    offset = next_offset;
                    continue ;
                },
                None => {},
            }
        }
        offset += 1;
    }
    blocks
}

/// Where a frame's EMDF blocks come from when the frame is scanned whole.
pub open spec fn spec_scan_source(blocks: Seq<EmdfBlockModel>) -> EmdfSource {
    if blocks.len() == 0 {
        EmdfSource::Absent
    } else {
        EmdfSource::FrameScanFallback
    }
}

/// Scans a whole frame for EMDF blocks and reports where they came from.
pub fn scan_frame_for_emdf(frame: &[u8]) -> (r: (EmdfSource, Vec<EmdfBlockInfo>))
    requires
        frame@.len() <= MAX_READER_BYTES,
    ensures
        blocks_view(r.1@) == spec_scan_emdf(frame@, 0, Seq::empty()),
        r.0 == spec_scan_source(blocks_view(r.1@)),
{
    let blocks = scan_emdf_blocks(frame);
    let source = if blocks.len() == 0 {
        EmdfSource::Absent
    } else {
        EmdfSource::FrameScanFallback
    };
    (source, blocks)
}

} // verus!
