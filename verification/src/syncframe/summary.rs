//! One-line text summary of an inspected access unit.

use crate::syncframe::access_unit::{
    spec_all_payloads, spec_count_id, spec_skip_bytes, AccessUnitInfo, AccessUnitModel,
};
use crate::syncframe::emdf::EmdfPayloadModel;
use crate::syncframe::types::{
    spec_aux_parse_status_name, spec_emdf_source_name, spec_frame_type_name, spec_payload_name,
    EmdfPayloadInfo,
};
use crate::text::{append_decimal, spec_decimal};
use vstd::prelude::*;
use vstd::seq_lib::lemma_concat_associative;
use vstd::string::StringExecFns;

verus! {

/// Number of set flags in `flags`.
pub open spec fn spec_count_true(flags: Seq<bool>) -> nat
    decreases flags.len(),
{
    if flags.len() == 0 {
        0
    } else {
        spec_count_true(flags.drop_last()) + if flags.last() {
            1nat
        } else {
            0nat
        }
    }
}

/// `1` or `0` as text.
pub open spec fn spec_bit_text(b: bool) -> Seq<char> {
    if b {
        "1"@
    } else {
        "0"@
    }
}

/// Text of one payload: id, kind and size, and the sample offset when there is one.
pub open spec fn spec_payload_text(p: EmdfPayloadModel) -> Seq<char> {
    spec_decimal(p.info.payload_id as nat) + "/"@ + spec_payload_name(p.info.payload_id)@ + ":"@
        + spec_decimal(p.info.payload_size_bytes as nat) + "B"@ + match p.info.sample_offset {
        Some(o) => "@"@ + spec_decimal(o as nat),
        None => Seq::empty(),
    }
}

/// Texts of the payloads joined by commas.
pub open spec fn spec_payload_list(payloads: Seq<EmdfPayloadModel>) -> Seq<char>
    decreases payloads.len(),
{
    if payloads.len() == 0 {
        Seq::empty()
    } else if payloads.len() == 1 {
        spec_payload_text(payloads[0])
    } else {
        spec_payload_list(payloads.drop_last()) + ","@ + spec_payload_text(payloads.last())
    }
}

/// Header fields of the summary: sizes, identifiers and channel layout.
pub open spec fn spec_summary_header(m: AccessUnitModel) -> Seq<char> {
    "frame="@ + spec_decimal(m.frame_size as nat) + " bsid="@ + spec_decimal(m.bitstream_id as nat)
        + " type="@ + spec_frame_type_name(m.frame_type)@ + " ssid="@ + spec_decimal(
        m.substreamid as nat,
    ) + " sr="@ + spec_decimal(m.sample_rate as nat) + " blocks="@ + spec_decimal(
        m.num_blocks as nat,
    ) + " acmod="@ + spec_decimal(m.channel_mode as nat) + " ch="@ + spec_decimal(
        m.channels as nat,
    ) + " lfe="@ + spec_bit_text(m.lfe_on) + " addbsi="@ + spec_bit_text(m.addbsi_present)
        + " extA="@ + spec_bit_text(m.extension_type_a) + " complexity="@ + spec_decimal(
        m.complexity_index_type_a as nat,
    )
}

/// Audio-frame fields of the summary: bit offsets, exponent mode, skip fields and coupling.
pub open spec fn spec_summary_layout(m: AccessUnitModel) -> Seq<char> {
    " body="@ + spec_decimal(m.body_start_bit_offset as nat) + "bit block0="@ + spec_decimal(
        m.audio_frame.block_payload_start_bit_offset as nat,
    ) + "bit expmode="@ + (if m.audio_frame.exponent_strategies_embedded {
        "per-block"@
    } else {
        "frame-code"@
    }) + " skipfield="@ + spec_bit_text(m.audio_frame.skip_field_syntax_enabled) + " cpl="@
        + spec_decimal(spec_count_true(m.audio_frame.coupling_in_use)) + "/"@ + spec_decimal(
        m.num_blocks as nat,
    )
}

/// Payload fields of the summary: aux and skip-field sizes, EMDF source and payload counts.
pub open spec fn spec_summary_payload_counts(m: AccessUnitModel) -> Seq<char> {
    let payloads = spec_all_payloads(m.emdf_blocks);
    " aux="@ + spec_decimal(m.aux_data.len()) + "B skip="@ + spec_decimal(
        spec_skip_bytes(m.skip_fields).len(),
    ) + "B/"@ + spec_decimal(m.skip_fields.len()) + "blk auxparse="@ + spec_aux_parse_status_name(
        m.aux_parse_status,
    )@ + " emdfsrc="@ + spec_emdf_source_name(m.emdf_source)@ + " emdf="@ + spec_decimal(
        m.emdf_block_count as nat,
    ) + " payloads="@ + spec_decimal(payloads.len()) + " joc="@ + spec_decimal(
        spec_count_id(payloads, 14),
    ) + " oamd="@ + spec_decimal(spec_count_id(payloads, 11))
}

/// The fixed fields of the summary.
pub open spec fn spec_summary_head(m: AccessUnitModel) -> Seq<char> {
    spec_summary_header(m) + spec_summary_layout(m) + spec_summary_payload_counts(m)
}

/// The summary line: the fixed fields, the first EMDF sync offset when there is a block, and
/// the payload list when there are payloads.
pub open spec fn spec_summary(m: AccessUnitModel) -> Seq<char> {
    let payloads = spec_all_payloads(m.emdf_blocks);
    spec_summary_head(m) + match m.first_emdf_sync_offset {
        Some(o) => " first_sync="@ + spec_decimal(o as nat),
        None => Seq::empty(),
    } + if payloads.len() > 0 {
        " payloads=["@ + spec_payload_list(payloads) + "]"@
    } else {
        Seq::empty()
    }
}

/// Appends `1` or `0`.
fn append_bit(out: &mut String, b: bool)
    ensures
        final(out)@ == old(out)@ + spec_bit_text(b),
{
    if b {
        out.append("1");
    } else {
        out.append("0");
    }
}

/// Appends the text of one payload.
fn append_payload(out: &mut String, p: &EmdfPayloadInfo)
    ensures
        final(out)@ == old(out)@ + spec_payload_text(p@),
{
    let ghost start = out@;
    append_decimal(out, p.info.payload_id as u64);
    out.append("/");
    out.append(p.payload_name());
    out.append(":");
    append_decimal(out, p.info.payload_size_bytes as u64);
    out.append("B");
    match p.info.sample_offset {
        Some(o) => {
            out.append("@");
            append_decimal(out, o as u64);
        },
        None => {},
    }
    assert(out@ =~= start + spec_payload_text(p@));
}

/// Appends `piece` to a text that so far reads `start + acc`.
fn push_str(
    out: &mut String,
    piece: &str,
    Ghost(start): Ghost<Seq<char>>,
    Ghost(acc): Ghost<Seq<char>>,
)
    requires
        old(out)@ == start + acc,
    ensures
        final(out)@ == start + (acc + piece@),
{
    out.append(piece);
    proof {
        lemma_concat_associative(start, acc, piece@);
    }
}

/// Appends the decimal text of `n` to a text that so far reads `start + acc`.
fn push_decimal(out: &mut String, n: u64, Ghost(start): Ghost<Seq<char>>, Ghost(acc): Ghost<Seq<char>>)
    requires
        old(out)@ == start + acc,
    ensures
        final(out)@ == start + (acc + spec_decimal(n as nat)),
{
    append_decimal(out, n);
    proof {
        lemma_concat_associative(start, acc, spec_decimal(n as nat));
    }
}

/// Appends `1` or `0` to a text that so far reads `start + acc`.
fn push_bit(out: &mut String, b: bool, Ghost(start): Ghost<Seq<char>>, Ghost(acc): Ghost<Seq<char>>)
    requires
        old(out)@ == start + acc,
    ensures
        final(out)@ == start + (acc + spec_bit_text(b)),
{
    append_bit(out, b);
    proof {
        lemma_concat_associative(start, acc, spec_bit_text(b));
    }
}

impl AccessUnitInfo {
    /// Number of audio blocks that use coupling.
    fn coupling_block_count(&self) -> (r: usize)
        ensures
            r == spec_count_true(self.audio_frame.coupling_in_use@),
    {
        let ghost flags = self.audio_frame.coupling_in_use@;
        let mut count: usize = 0;
        let mut i: usize = 0;
        assert(flags.take(0) =~= Seq::empty());
        while i < self.audio_frame.coupling_in_use.len()
            invariant
                flags == self.audio_frame.coupling_in_use@,
                i <= flags.len(),
                count == spec_count_true(flags.take(i as int)),
                count <= i,
            decreases flags.len() - i,
        {
            assert(flags.take(i + 1).drop_last() =~= flags.take(i as int));
            if self.audio_frame.coupling_in_use[i] {
                count += 1;
            }
            i += 1;
        }
        assert(flags.take(i as int) =~= flags);
        count
    }

    /// Appends the header fields of the summary.
    fn append_summary_header(&self, out: &mut String)
        ensures
            final(out)@ == old(out)@ + spec_summary_header(self@),
    {
        let ghost start = out@;
        let ghost mut acc = Seq::<char>::empty();
        assert(start + acc =~= start);
        push_str(out, "frame=", Ghost(start), Ghost(acc));
        proof { acc = acc + "frame="@; assert(acc =~= "frame="@); acc = "frame="@; }
        push_decimal(out, self.frame_size as u64, Ghost(start), Ghost(acc));
        proof { acc = acc + spec_decimal(self.frame_size as u64 as nat); }
        push_str(out, " bsid=", Ghost(start), Ghost(acc));
        proof { acc = acc + " bsid="@; }
        push_decimal(out, self.bitstream_id as u64, Ghost(start), Ghost(acc));
        proof { acc = acc + spec_decimal(self.bitstream_id as u64 as nat); }
        push_str(out, " type=", Ghost(start), Ghost(acc));
        proof { acc = acc + " type="@; }
        push_str(out, self.frame_type.name(), Ghost(start), Ghost(acc));
        proof { acc = acc + spec_frame_type_name(self.frame_type)@; }
        push_str(out, " ssid=", Ghost(start), Ghost(acc));
        proof { acc = acc + " ssid="@; }
        push_decimal(out, self.substreamid as u64, Ghost(start), Ghost(acc));
        proof { acc = acc + spec_decimal(self.substreamid as u64 as nat); }
        push_str(out, " sr=", Ghost(start), Ghost(acc));
        proof { acc = acc + " sr="@; }
        push_decimal(out, self.sample_rate as u64, Ghost(start), Ghost(acc));
        proof { acc = acc + spec_decimal(self.sample_rate as u64 as nat); }
        push_str(out, " blocks=", Ghost(start), Ghost(acc));
        proof { acc = acc + " blocks="@; }
        push_decimal(out, self.num_blocks as u64, Ghost(start), Ghost(acc));
        proof { acc = acc + spec_decimal(self.num_blocks as u64 as nat); }
        push_str(out, " acmod=", Ghost(start), Ghost(acc));
        proof { acc = acc + " acmod="@; }
        push_decimal(out, self.channel_mode as u64, Ghost(start), Ghost(acc));
        proof { acc = acc + spec_decimal(self.channel_mode as u64 as nat); }
        push_str(out, " ch=", Ghost(start), Ghost(acc));
        proof { acc = acc + " ch="@; }
        push_decimal(out, self.channels as u64, Ghost(start), Ghost(acc));
        proof { acc = acc + spec_decimal(self.channels as u64 as nat); }
        push_str(out, " lfe=", Ghost(start), Ghost(acc));
        proof { acc = acc + " lfe="@; }
        push_bit(out, self.lfe_on, Ghost(start), Ghost(acc));
        proof { acc = acc + spec_bit_text(self.lfe_on); }
        push_str(out, " addbsi=", Ghost(start), Ghost(acc));
        proof { acc = acc + " addbsi="@; }
        push_bit(out, self.addbsi_present, Ghost(start), Ghost(acc));
        proof { acc = acc + spec_bit_text(self.addbsi_present); }
        push_str(out, " extA=", Ghost(start), Ghost(acc));
        proof { acc = acc + " extA="@; }
        push_bit(out, self.extension_type_a, Ghost(start), Ghost(acc));
        proof { acc = acc + spec_bit_text(self.extension_type_a); }
        push_str(out, " complexity=", Ghost(start), Ghost(acc));
        proof { acc = acc + " complexity="@; }
        push_decimal(out, self.complexity_index_type_a as u64, Ghost(start), Ghost(acc));
        proof { acc = acc + spec_decimal(self.complexity_index_type_a as u64 as nat); }
        assert(acc == spec_summary_header(self@));
    }

    /// Appends the audio-frame fields of the summary.
    fn append_summary_layout(&self, out: &mut String)
        ensures
            final(out)@ == old(out)@ + spec_summary_layout(self@),
    {
        let ghost start = out@;
        let ghost mut acc = Seq::<char>::empty();
        assert(start + acc =~= start);
        push_str(out, " body=", Ghost(start), Ghost(acc));
        proof { acc = acc + " body="@; assert(acc =~= " body="@); acc = " body="@; }
        push_decimal(out, self.body_start_bit_offset as u64, Ghost(start), Ghost(acc));
        proof { acc = acc + spec_decimal(self.body_start_bit_offset as u64 as nat); }
        push_str(out, "bit block0=", Ghost(start), Ghost(acc));
        proof { acc = acc + "bit block0="@; }
        push_decimal(out, self.audio_frame.block_payload_start_bit_offset as u64, Ghost(start), Ghost(acc));
        proof { acc = acc + spec_decimal(self.audio_frame.block_payload_start_bit_offset as u64 as nat); }
        push_str(out, "bit expmode=", Ghost(start), Ghost(acc));
        proof { acc = acc + "bit expmode="@; }
        if self.audio_frame.exponent_strategies_embedded {
            push_str(out, "per-block", Ghost(start), Ghost(acc));
            proof { acc = acc + "per-block"@; }
        } else {
            push_str(out, "frame-code", Ghost(start), Ghost(acc));
            proof { acc = acc + "frame-code"@; }
        }
        push_str(out, " skipfield=", Ghost(start), Ghost(acc));
        proof { acc = acc + " skipfield="@; }
        push_bit(out, self.audio_frame.skip_field_syntax_enabled, Ghost(start), Ghost(acc));
        proof { acc = acc + spec_bit_text(self.audio_frame.skip_field_syntax_enabled); }
        push_str(out, " cpl=", Ghost(start), Ghost(acc));
        proof { acc = acc + " cpl="@; }
        let cpl = self.coupling_block_count();
        push_decimal(out, cpl as u64, Ghost(start), Ghost(acc));
        proof { acc = acc + spec_decimal(cpl as u64 as nat); }
        push_str(out, "/", Ghost(start), Ghost(acc));
        proof { acc = acc + "/"@; }
        push_decimal(out, self.num_blocks as u64, Ghost(start), Ghost(acc));
        proof { acc = acc + spec_decimal(self.num_blocks as u64 as nat); }
        assert(acc == spec_summary_layout(self@));
    }

    /// Appends the payload fields of the summary.
    fn append_summary_payload_counts(&self, out: &mut String)
        requires
            spec_skip_bytes(self@.skip_fields).len() <= usize::MAX,
        ensures
            final(out)@ == old(out)@ + spec_summary_payload_counts(self@),
    {
        let ghost start = out@;
        let ghost mut acc = Seq::<char>::empty();
        assert(start + acc =~= start);
        push_str(out, " aux=", Ghost(start), Ghost(acc));
        proof { acc = acc + " aux="@; assert(acc =~= " aux="@); acc = " aux="@; }
        push_decimal(out, self.aux_data.len() as u64, Ghost(start), Ghost(acc));
        proof { acc = acc + spec_decimal(self.aux_data.len() as u64 as nat); }
        push_str(out, "B skip=", Ghost(start), Ghost(acc));
        proof { acc = acc + "B skip="@; }
        let skip_len = self.skip_field_bytes_len();
        push_decimal(out, skip_len as u64, Ghost(start), Ghost(acc));
        proof { acc = acc + spec_decimal(skip_len as u64 as nat); }
        push_str(out, "B/", Ghost(start), Ghost(acc));
        proof { acc = acc + "B/"@; }
        push_decimal(out, self.skip_fields.len() as u64, Ghost(start), Ghost(acc));
        proof { acc = acc + spec_decimal(self.skip_fields.len() as u64 as nat); }
        push_str(out, "blk auxparse=", Ghost(start), Ghost(acc));
        proof { acc = acc + "blk auxparse="@; }
        push_str(out, self.aux_parse_status.name(), Ghost(start), Ghost(acc));
        proof { acc = acc + spec_aux_parse_status_name(self.aux_parse_status)@; }
        push_str(out, " emdfsrc=", Ghost(start), Ghost(acc));
        proof { acc = acc + " emdfsrc="@; }
        push_str(out, self.emdf_source.name(), Ghost(start), Ghost(acc));
        proof { acc = acc + spec_emdf_source_name(self.emdf_source)@; }
        push_str(out, " emdf=", Ghost(start), Ghost(acc));
        proof { acc = acc + " emdf="@; }
        push_decimal(out, self.emdf_block_count as u64, Ghost(start), Ghost(acc));
        proof { acc = acc + spec_decimal(self.emdf_block_count as u64 as nat); }
        push_str(out, " payloads=", Ghost(start), Ghost(acc));
        proof { acc = acc + " payloads="@; }
        let count = self.payloads().len();
        push_decimal(out, count as u64, Ghost(start), Ghost(acc));
        proof { acc = acc + spec_decimal(count as u64 as nat); }
        push_str(out, " joc=", Ghost(start), Ghost(acc));
        proof { acc = acc + " joc="@; }
        let joc = self.joc_payload_count();
        push_decimal(out, joc as u64, Ghost(start), Ghost(acc));
        proof { acc = acc + spec_decimal(joc as u64 as nat); }
        push_str(out, " oamd=", Ghost(start), Ghost(acc));
        proof { acc = acc + " oamd="@; }
        let oamd = self.oamd_payload_count();
        push_decimal(out, oamd as u64, Ghost(start), Ghost(acc));
        proof { acc = acc + spec_decimal(oamd as u64 as nat); }
        assert(acc == spec_summary_payload_counts(self@));
    }

    /// Appends the fixed fields of the summary.
    fn append_summary_head(&self, out: &mut String)
        requires
            spec_skip_bytes(self@.skip_fields).len() <= usize::MAX,
        ensures
            final(out)@ == old(out)@ + spec_summary_head(self@),
    {
        let ghost start = out@;
        self.append_summary_header(out);
        self.append_summary_layout(out);
        self.append_summary_payload_counts(out);
        assert(out@ =~= start + spec_summary_head(self@));
    }

    /// Compact text summary for logs and offline comparison tools.
    pub fn summary(&self) -> (s: String)
        requires
            spec_skip_bytes(self@.skip_fields).len() <= usize::MAX,
        ensures
            s@ == spec_summary(self@),
    {
        let mut out = String::new();
        self.append_summary_head(&mut out);
        let ghost head = out@;
        match self.first_emdf_sync_offset {
            Some(first_sync) => {
                out.append(" first_sync=");
                append_decimal(&mut out, first_sync as u64);
            },
            None => {},
        }
        let ghost mid = out@;
        let payloads = self.payloads();
        let ghost all = spec_all_payloads(self@.emdf_blocks);
        if payloads.len() > 0 {
            out.append(" payloads=[");
            let ghost list_start = out@;
            let mut i: usize = 0;
            while i < payloads.len()
                invariant
                    payloads@.len() == all.len(),
                    forall|j: int| 0 <= j < payloads@.len() ==> (#[trigger] payloads@[j])@ == all[j],
                    i <= payloads@.len(),
                    out@ == list_start + spec_payload_list(all.take(i as int)),
                decreases payloads@.len() - i,
            {
                let ghost before = out@;
                assert(all.take(i + 1).drop_last() =~= all.take(i as int));
                assert(payloads@[i as int]@ == all[i as int]);
                if i != 0 {
                    out.append(",");
                }
                append_payload(&mut out, payloads[i]);
                proof {
                    if i == 0 {
                        assert(all.take(1)[0] == all[0]);
                    }
                    assert(out@ =~= list_start + spec_payload_list(all.take(i + 1)));
                }
                i += 1;
            }
            assert(all.take(i as int) =~= all);
            out.append("]");
        }
        assert(out@ =~= spec_summary(self@));
        out
    }
}

} // verus!
