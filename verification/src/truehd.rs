//! TrueHD object decoding bookkeeping: errors, channel labels, the bed/object layout of decoded
//! access units, and the decoder's counters.

use crate::ffi::{spec_bed_channel_id, spec_bed_code};
use crate::renderer::BedChannel;
use crate::text::{append_decimal, spec_decimal};
use vstd::prelude::*;
use vstd::string::StringExecFns;

verus! {

/// Severity at and above which validation messages fail decoding, from the most to the least
/// severe: the five levels of the `log` crate.
#[derive(Debug, Clone, Copy, PartialEq, Eq, Structural)]
pub enum FailLevel {
    Error,
    Warn,
    Info,
    Debug,
    Trace,
}

/// Kind of a TrueHD decoding error.
#[derive(Debug, Clone, Copy, PartialEq, Eq, Structural)]
pub enum TrueHdErrorKind {
    Parse,
    Decode,
    UnsupportedLayout,
    InvalidMetadata,
}

/// Stable text name of an error kind.
pub open spec fn spec_kind_name(kind: TrueHdErrorKind) -> &'static str {
    match kind {
        TrueHdErrorKind::Parse => "parse",
        TrueHdErrorKind::Decode => "decode",
        TrueHdErrorKind::UnsupportedLayout => "unsupported-layout",
        TrueHdErrorKind::InvalidMetadata => "invalid-metadata",
    }
}

impl TrueHdErrorKind {
    /// Stable text name of the kind.
    pub fn as_str(self) -> (s: &'static str)
        ensures
            s == spec_kind_name(self),
    {
        match self {
            TrueHdErrorKind::Parse => "parse",
            TrueHdErrorKind::Decode => "decode",
            TrueHdErrorKind::UnsupportedLayout => "unsupported-layout",
            TrueHdErrorKind::InvalidMetadata => "invalid-metadata",
        }
    }
}

/// A TrueHD decoding error: its kind and a message.
#[derive(Debug, Clone, PartialEq, Eq)]
pub struct TrueHdError {
    pub kind: TrueHdErrorKind,
    pub message: String,
}

impl TrueHdError {
    /// A parse error with `message`.
    pub fn parse(message: String) -> (e: Self)
        ensures
            e.kind == TrueHdErrorKind::Parse,
            e.message@ == message@,
    {
        TrueHdError { kind: TrueHdErrorKind::Parse, message }
    }

    /// A decode error with `message`.
    pub fn decode(message: String) -> (e: Self)
        ensures
            e.kind == TrueHdErrorKind::Decode,
            e.message@ == message@,
    {
        TrueHdError { kind: TrueHdErrorKind::Decode, message }
    }

    /// An unsupported-layout error with `message`.
    pub fn unsupported_layout(message: String) -> (e: Self)
        ensures
            e.kind == TrueHdErrorKind::UnsupportedLayout,
            e.message@ == message@,
    {
        TrueHdError { kind: TrueHdErrorKind::UnsupportedLayout, message }
    }

    /// An invalid-metadata error with `message`.
    pub fn invalid_metadata(message: String) -> (e: Self)
        ensures
            e.kind == TrueHdErrorKind::InvalidMetadata,
            e.message@ == message@,
    {
        TrueHdError { kind: TrueHdErrorKind::InvalidMetadata, message }
    }

    /// Stable text name of the error's kind.
    pub fn kind_name(&self) -> (s: &'static str)
        ensures
            s == spec_kind_name(self.kind),
    {
        self.kind.as_str()
    }

    /// Text of the error: `truehd-`, the kind's name, a space and the message.
    pub fn to_string(&self) -> (s: String)
        ensures
            s@ == "truehd-"@ + spec_kind_name(self.kind)@ + " "@ + self.message@,
    {
        let mut out = String::from_str("truehd-");
        out.append(self.kind.as_str());
        out.append(" ");
        out.append(self.message.as_str());
        out
    }
}

/// Channel labels of a TrueHD presentation.
#[derive(Debug, Clone, Copy, PartialEq, Eq, Structural)]
pub enum ChannelLabel {
    L,
    R,
    C,
    LFE,
    Ls,
    Rs,
    Lb,
    Rb,
    Cb,
    Tfl,
    Tfr,
    Tfc,
    Tsl,
    Tsr,
    Tbl,
    Tbr,
    Tbc,
    Lw,
    Rw,
    Lsc,
    Rsc,
    Ts,
    LFE2,
}

/// Text name of a channel label.
pub open spec fn spec_label_name(label: ChannelLabel) -> &'static str {
    match label {
        ChannelLabel::L => "L",
        ChannelLabel::R => "R",
        ChannelLabel::C => "C",
        ChannelLabel::LFE => "LFE",
        ChannelLabel::Ls => "Ls",
        ChannelLabel::Rs => "Rs",
        ChannelLabel::Lb => "Lb",
        ChannelLabel::Rb => "Rb",
        ChannelLabel::Cb => "Cb",
        ChannelLabel::Tfl => "Tfl",
        ChannelLabel::Tfr => "Tfr",
        ChannelLabel::Tfc => "Tfc",
        ChannelLabel::Tsl => "Tsl",
        ChannelLabel::Tsr => "Tsr",
        ChannelLabel::Tbl => "Tbl",
        ChannelLabel::Tbr => "Tbr",
        ChannelLabel::Tbc => "Tbc",
        ChannelLabel::Lw => "Lw",
        ChannelLabel::Rw => "Rw",
        ChannelLabel::Lsc => "Lsc",
        ChannelLabel::Rsc => "Rsc",
        ChannelLabel::Ts => "Ts",
        ChannelLabel::LFE2 => "LFE2",
    }
}

impl ChannelLabel {
    /// Text name of the label.
    pub fn name(self) -> (s: &'static str)
        ensures
            s == spec_label_name(self),
    {
        match self {
            ChannelLabel::L => "L",
            ChannelLabel::R => "R",
            ChannelLabel::C => "C",
            ChannelLabel::LFE => "LFE",
            ChannelLabel::Ls => "Ls",
            ChannelLabel::Rs => "Rs",
            ChannelLabel::Lb => "Lb",
            ChannelLabel::Rb => "Rb",
            ChannelLabel::Cb => "Cb",
            ChannelLabel::Tfl => "Tfl",
            ChannelLabel::Tfr => "Tfr",
            ChannelLabel::Tfc => "Tfc",
            ChannelLabel::Tsl => "Tsl",
            ChannelLabel::Tsr => "Tsr",
            ChannelLabel::Tbl => "Tbl",
            ChannelLabel::Tbr => "Tbr",
            ChannelLabel::Tbc => "Tbc",
            ChannelLabel::Lw => "Lw",
            ChannelLabel::Rw => "Rw",
            ChannelLabel::Lsc => "Lsc",
            ChannelLabel::Rsc => "Rsc",
            ChannelLabel::Ts => "Ts",
            ChannelLabel::LFE2 => "LFE2",
        }
    }
}

/// The renderer bed channel that a TrueHD label stands for, if any.
pub open spec fn spec_bed_channel_from_label(label: ChannelLabel) -> Option<BedChannel> {
    match label {
        ChannelLabel::L => Some(BedChannel::FrontLeft),
        ChannelLabel::R => Some(BedChannel::FrontRight),
        ChannelLabel::C => Some(BedChannel::Center),
        ChannelLabel::LFE => Some(BedChannel::LowFrequencyEffects),
        ChannelLabel::Ls => Some(BedChannel::SurroundLeft),
        ChannelLabel::Rs => Some(BedChannel::SurroundRight),
        ChannelLabel::Lb => Some(BedChannel::RearLeft),
        ChannelLabel::Rb => Some(BedChannel::RearRight),
        ChannelLabel::Tfl => Some(BedChannel::TopFrontLeft),
        ChannelLabel::Tfr => Some(BedChannel::TopFrontRight),
        ChannelLabel::Tsl => Some(BedChannel::TopSurroundLeft),
        ChannelLabel::Tsr => Some(BedChannel::TopSurroundRight),
        ChannelLabel::Tbl => Some(BedChannel::TopRearLeft),
        ChannelLabel::Tbr => Some(BedChannel::TopRearRight),
        ChannelLabel::Lw => Some(BedChannel::WideLeft),
        ChannelLabel::Rw => Some(BedChannel::WideRight),
        ChannelLabel::LFE2 => Some(BedChannel::LowFrequencyEffects2),
        _ => None,
    }
}

/// The renderer bed channel that a TrueHD label stands for, if any.
pub fn bed_channel_from_label(label: ChannelLabel) -> (r: Option<BedChannel>)
    ensures
        r == spec_bed_channel_from_label(label),
{
    match label {
        ChannelLabel::L => Some(BedChannel::FrontLeft),
        ChannelLabel::R => Some(BedChannel::FrontRight),
        ChannelLabel::C => Some(BedChannel::Center),
        ChannelLabel::LFE => Some(BedChannel::LowFrequencyEffects),
        ChannelLabel::Ls => Some(BedChannel::SurroundLeft),
        ChannelLabel::Rs => Some(BedChannel::SurroundRight),
        ChannelLabel::Lb => Some(BedChannel::RearLeft),
        ChannelLabel::Rb => Some(BedChannel::RearRight),
        ChannelLabel::Tfl => Some(BedChannel::TopFrontLeft),
        ChannelLabel::Tfr => Some(BedChannel::TopFrontRight),
        ChannelLabel::Tsl => Some(BedChannel::TopSurroundLeft),
        ChannelLabel::Tsr => Some(BedChannel::TopSurroundRight),
        ChannelLabel::Tbl => Some(BedChannel::TopRearLeft),
        ChannelLabel::Tbr => Some(BedChannel::TopRearRight),
        ChannelLabel::Lw => Some(BedChannel::WideLeft),
        ChannelLabel::Rw => Some(BedChannel::WideRight),
        ChannelLabel::LFE2 => Some(BedChannel::LowFrequencyEffects2),
        _ => None,
    }
}

/// Distinct labels stand for distinct bed channels.
pub proof fn lemma_bed_channel_from_label_injective(a: ChannelLabel, b: ChannelLabel)
    ensures
        spec_bed_channel_from_label(a) is Some && spec_bed_channel_from_label(a)
            == spec_bed_channel_from_label(b) ==> a == b,
{
}

/// Bed order and dynamic object count of a decoded presentation.
#[derive(Debug, Clone, PartialEq, Eq)]
pub struct LayoutState {
    pub bed_channel_order: Vec<BedChannel>,
    pub dynamic_object_count: usize,
}

/// Mathematical view of [`LayoutState`].
pub struct LayoutModel {
    pub bed_channel_order: Seq<BedChannel>,
    pub dynamic_object_count: usize,
}

impl View for LayoutState {
    type V = LayoutModel;

    open spec fn view(&self) -> LayoutModel {
        LayoutModel {
            bed_channel_order: self.bed_channel_order@,
            dynamic_object_count: self.dynamic_object_count,
        }
    }
}

/// Every label stands for a bed channel.
pub open spec fn labels_all_beds(labels: Seq<ChannelLabel>) -> bool {
    forall|i: int| 0 <= i < labels.len() ==> (#[trigger] spec_bed_channel_from_label(labels[i])) is Some
}

/// The bed channels that the labels stand for.
pub open spec fn spec_beds_of_labels(labels: Seq<ChannelLabel>) -> Seq<BedChannel> {
    labels.map_values(|l: ChannelLabel| spec_bed_channel_from_label(l)->Some_0)
}

/// Index of the first label that stands for no bed channel.
pub open spec fn first_non_bed(labels: Seq<ChannelLabel>) -> int
    recommends
        !labels_all_beds(labels),
{
    choose|i: int|
        0 <= i < labels.len() && spec_bed_channel_from_label(labels[i]) is None && forall|j: int|
            0 <= j < i ==> (#[trigger] spec_bed_channel_from_label(labels[j])) is Some
}

/// Layout of a presentation from its channel labels: none without labels or with more labels
/// than channels; an error when a label stands for no bed channel; else the labelled beds and
/// the remaining channels as dynamic objects.
pub open spec fn spec_layout_from_labels(labels: Seq<ChannelLabel>, channel_count: usize) -> Result<
    Option<LayoutModel>,
    TrueHdErrorKind,
> {
    if labels.len() == 0 || labels.len() > channel_count {
        Ok(None)
    } else if !labels_all_beds(labels) {
        Err(TrueHdErrorKind::UnsupportedLayout)
    } else {
        Ok(
            Some(
                LayoutModel {
                    bed_channel_order: spec_beds_of_labels(labels),
                    dynamic_object_count: (channel_count - labels.len()) as usize,
                },
            ),
        )
    }
}

/// Layout of a presentation from its channel labels.
pub fn layout_from_channel_labels(channel_labels: &[ChannelLabel], channel_count: usize) -> (r:
    Result<Option<LayoutState>, TrueHdError>)
    ensures
        match spec_layout_from_labels(channel_labels@, channel_count) {
            Ok(None) => r matches Ok(None),
            Ok(Some(m)) => r matches Ok(Some(l)) && l@ == m,
            Err(kind) => r matches Err(e) && e.kind == kind,
        },
        r matches Err(e) ==> !labels_all_beds(channel_labels@) && e.message@
            == "unsupported TrueHD bed label "@ + spec_label_name(
            channel_labels@[first_non_bed(channel_labels@)],
        )@,
{
    if channel_labels.len() == 0 || channel_labels.len() > channel_count {
        return Ok(None);
    }
    let mut beds: Vec<BedChannel> = Vec::new();
    let mut i: usize = 0;
    while i < channel_labels.len()
        invariant
            0 < channel_labels@.len() <= channel_count,
            i <= channel_labels@.len(),
            beds@ == spec_beds_of_labels(channel_labels@.subrange(0, i as int)),
            forall|j: int|
                0 <= j < i ==> (#[trigger] spec_bed_channel_from_label(channel_labels@[j])) is Some,
        decreases channel_labels@.len() - i,
    {
        match bed_channel_from_label(channel_labels[i]) {
            Some(bed) => {
                beds.push(bed);
                assert(beds@ =~= spec_beds_of_labels(channel_labels@.subrange(0, i + 1)));
            },
            None => {
                let mut message = String::from_str("unsupported TrueHD bed label ");
                message.append(channel_labels[i].name());
                proof {
                    assert(first_non_bed(channel_labels@) == i);
                }
                return Err(TrueHdError::unsupported_layout(message));
            },
        }
        i += 1;
    }
    assert(channel_labels@.subrange(0, i as int) =~= channel_labels@);
    Ok(
        Some(
            LayoutState {
                bed_channel_order: beds,
                dynamic_object_count: channel_count - channel_labels.len(),
            },
        ),
    )
}

/// A copy of `layout`.
fn copy_layout(layout: &LayoutState) -> (r: LayoutState)
    ensures
        r@ == layout@,
{
    let mut beds: Vec<BedChannel> = Vec::new();
    let mut i: usize = 0;
    while i < layout.bed_channel_order.len()
        invariant
            i <= layout.bed_channel_order@.len(),
            beds@ == layout.bed_channel_order@.subrange(0, i as int),
        decreases layout.bed_channel_order@.len() - i,
    {
        beds.push(layout.bed_channel_order[i]);
        i += 1;
        assert(beds@ =~= layout.bed_channel_order@.subrange(0, i as int));
    }
    assert(beds@ =~= layout.bed_channel_order@);
    LayoutState { bed_channel_order: beds, dynamic_object_count: layout.dynamic_object_count }
}

/// The layout fits `channel_count` decoded channels.
pub open spec fn layout_fits(layout: LayoutModel, channel_count: usize) -> bool {
    layout.bed_channel_order.len() + layout.dynamic_object_count == channel_count
}

/// What the object element of an OAMD payload carries for the metadata checks: the sample
/// offset of its update and its number of object info blocks.
#[derive(Debug, Clone, Copy, PartialEq, Eq, Structural)]
pub struct OamdElementInfo {
    pub sample_offset: usize,
    pub num_obj_info_blocks: usize,
}

/// What the layout logic and the metadata checks read of one object-audio metadata payload:
/// the number of ISF objects, the bed channel indices of its bed assignment in order, the
/// number of dynamic objects, its object element (if any), and the sample offset of the
/// evolution frame that carried it.
pub struct OamdInfo {
    pub num_isf_objects: usize,
    pub bed_indices: Vec<usize>,
    pub num_dynamic_objects: usize,
    pub object_element: Option<OamdElementInfo>,
    pub evo_sample_offset: u64,
}

/// Mathematical view of [`OamdInfo`].
pub struct OamdModel {
    pub num_isf_objects: usize,
    pub bed_indices: Seq<usize>,
    pub num_dynamic_objects: usize,
    pub object_element: Option<OamdElementInfo>,
    pub evo_sample_offset: u64,
}

impl View for OamdInfo {
    type V = OamdModel;

    open spec fn view(&self) -> OamdModel {
        OamdModel {
            num_isf_objects: self.num_isf_objects,
            bed_indices: self.bed_indices@,
            num_dynamic_objects: self.num_dynamic_objects,
            object_element: self.object_element,
            evo_sample_offset: self.evo_sample_offset,
        }
    }
}

/// The bed channel with index `index` in an OAMD bed assignment, if there is one.
pub open spec fn spec_bed_from_index(index: usize) -> Option<BedChannel> {
    match index {
        0 => Some(BedChannel::FrontLeft),
        1 => Some(BedChannel::FrontRight),
        2 => Some(BedChannel::Center),
        3 => Some(BedChannel::LowFrequencyEffects),
        4 => Some(BedChannel::SurroundLeft),
        5 => Some(BedChannel::SurroundRight),
        6 => Some(BedChannel::RearLeft),
        7 => Some(BedChannel::RearRight),
        8 => Some(BedChannel::TopFrontLeft),
        9 => Some(BedChannel::TopFrontRight),
        10 => Some(BedChannel::TopSurroundLeft),
        11 => Some(BedChannel::TopSurroundRight),
        12 => Some(BedChannel::TopRearLeft),
        13 => Some(BedChannel::TopRearRight),
        14 => Some(BedChannel::WideLeft),
        15 => Some(BedChannel::WideRight),
        16 => Some(BedChannel::LowFrequencyEffects2),
        _ => None,
    }
}

/// The bed channel with index `index` in an OAMD bed assignment, if there is one.
fn bed_from_index(index: usize) -> (r: Option<BedChannel>)
    ensures
        r == spec_bed_from_index(index),
{
    match index {
        0 => Some(BedChannel::FrontLeft),
        1 => Some(BedChannel::FrontRight),
        2 => Some(BedChannel::Center),
        3 => Some(BedChannel::LowFrequencyEffects),
        4 => Some(BedChannel::SurroundLeft),
        5 => Some(BedChannel::SurroundRight),
        6 => Some(BedChannel::RearLeft),
        7 => Some(BedChannel::RearRight),
        8 => Some(BedChannel::TopFrontLeft),
        9 => Some(BedChannel::TopFrontRight),
        10 => Some(BedChannel::TopSurroundLeft),
        11 => Some(BedChannel::TopSurroundRight),
        12 => Some(BedChannel::TopRearLeft),
        13 => Some(BedChannel::TopRearRight),
        14 => Some(BedChannel::WideLeft),
        15 => Some(BedChannel::WideRight),
        16 => Some(BedChannel::LowFrequencyEffects2),
        _ => None,
    }
}

/// OAMD bed index `k` names the bed channel whose C identifier is `k`: the bed table lists the
/// channels in the order of their identifiers (front left and right, centre, LFE, surround
/// left and right, rear left and right, then the heights, the wides and LFE2). Indices from
/// 17 on name no channel, and every bed channel has its index.
pub proof fn lemma_oamd_bed_index_is_channel_id(index: usize, channel: BedChannel)
    ensures
        spec_bed_from_index(index) is Some <==> index < 17,
        spec_bed_from_index(index) matches Some(c) ==> spec_bed_code(spec_bed_channel_id(c))
            == index,
        0 <= spec_bed_code(spec_bed_channel_id(channel)) < 17,
        spec_bed_from_index(spec_bed_code(spec_bed_channel_id(channel)) as usize) == Some(channel),
{
}

/// The first index from position `i` on that names no bed channel.
pub open spec fn spec_first_bad_index(indices: Seq<usize>, i: int) -> Option<usize>
    decreases indices.len() - i,
{
    if i < 0 || i >= indices.len() {
        None
    } else if spec_bed_from_index(indices[i]) is None {
        Some(indices[i])
    } else {
        spec_first_bad_index(indices, i + 1)
    }
}

/// Layout that one OAMD payload announces, or the message that refuses it: ISF objects are not
/// supported, and every bed index must name a bed channel.
pub open spec fn spec_layout_from_oamd(info: OamdModel) -> Result<LayoutModel, Seq<char>> {
    if info.num_isf_objects != 0 {
        Err("ISF objects are not supported (count="@ + spec_decimal(info.num_isf_objects as nat) + ")"@)
    } else {
        match spec_first_bad_index(info.bed_indices, 0) {
            Some(index) => Err("unsupported bed channel index "@ + spec_decimal(index as nat)),
            None => Ok(
                LayoutModel {
                    bed_channel_order: info.bed_indices.map_values(|i: usize| spec_bed_from_index(i)->Some_0),
                    dynamic_object_count: info.num_dynamic_objects,
                },
            ),
        }
    }
}

/// The message for OAMD payloads of one access unit that disagree on the layout.
pub open spec fn oamd_disagreement_message() -> Seq<char> {
    "multiple OAMD payloads in one access unit disagree on bed/object layout"@
}

/// The payloads from position `i` on announce `first` too, or the first message that refuses
/// one of them.
pub open spec fn spec_rest_agree(infos: Seq<OamdModel>, i: int, first: LayoutModel) -> Result<LayoutModel, Seq<char>>
    decreases infos.len() - i,
{
    if i < 0 || i >= infos.len() {
        Ok(first)
    } else {
        match spec_layout_from_oamd(infos[i]) {
            Err(e) => Err(e),
            Ok(layout) => if layout != first {
                Err(oamd_disagreement_message())
            } else {
                spec_rest_agree(infos, i + 1, first)
            },
        }
    }
}

/// Layout that the OAMD payloads of an access unit announce: none without payloads, else the
/// layout of the first, which all others must announce too.
pub open spec fn spec_layout_from_oamd_payloads(infos: Seq<OamdModel>) -> Result<Option<LayoutModel>, Seq<char>> {
    if infos.len() == 0 {
        Ok(None)
    } else {
        match spec_layout_from_oamd(infos[0]) {
            Err(e) => Err(e),
            Ok(first) => match spec_rest_agree(infos, 1, first) {
                Err(e) => Err(e),
                Ok(l) => Ok(Some(l)),
            },
        }
    }
}

/// Past a position from which no index is bad, every index names a bed channel.
proof fn lemma_no_bad_index(indices: Seq<usize>, j: int, i: int)
    requires
        0 <= j <= i < indices.len(),
        spec_first_bad_index(indices, j) is None,
    ensures
        spec_bed_from_index(indices[i]) is Some,
    decreases i - j,
{
    if j < i {
        lemma_no_bad_index(indices, j + 1, i);
    }
}

/// The layout that an OAMD payload announces has one bed channel per bed index, in order, each
/// the channel whose C identifier is its index, and the payload's dynamic objects.
pub proof fn lemma_oamd_layout_follows_bed_indices(info: OamdModel)
    ensures
        spec_layout_from_oamd(info) matches Ok(l) ==> {
            &&& l.bed_channel_order.len() == info.bed_indices.len()
            &&& l.dynamic_object_count == info.num_dynamic_objects
            &&& forall|i: int|
                0 <= i < info.bed_indices.len() ==> spec_bed_code(
                    spec_bed_channel_id(#[trigger] l.bed_channel_order[i]),
                ) == info.bed_indices[i]
        },
{
    if spec_layout_from_oamd(info) is Ok {
        let l = spec_layout_from_oamd(info)->Ok_0;
        assert forall|i: int| 0 <= i < info.bed_indices.len() implies spec_bed_code(
            spec_bed_channel_id(#[trigger] l.bed_channel_order[i]),
        ) == info.bed_indices[i] by {
            lemma_no_bad_index(info.bed_indices, 0, i);
            lemma_oamd_bed_index_is_channel_id(info.bed_indices[i], l.bed_channel_order[i]);
        }
    }
}

/// Layout that one OAMD payload announces.
pub fn layout_from_oamd(info: &OamdInfo) -> (r: Result<LayoutState, TrueHdError>)
    ensures
        match spec_layout_from_oamd(info@) {
            Ok(m) => r matches Ok(l) && l@ == m,
            Err(msg) => r matches Err(e) && e.kind == TrueHdErrorKind::UnsupportedLayout && e.message@ == msg,
        },
{
    if info.num_isf_objects != 0 {
        let mut message = String::from_str("ISF objects are not supported (count=");
        append_decimal(&mut message, info.num_isf_objects as u64);
        message.append(")");
        return Err(TrueHdError::unsupported_layout(message));
    }
    let mut beds: Vec<BedChannel> = Vec::new();
    let mut i: usize = 0;
    while i < info.bed_indices.len()
        invariant
            info.num_isf_objects == 0,
            i <= info.bed_indices@.len(),
            spec_first_bad_index(info.bed_indices@, 0) == spec_first_bad_index(info.bed_indices@, i as int),
            beds@ == info.bed_indices@.subrange(0, i as int).map_values(|k: usize| spec_bed_from_index(k)->Some_0),
            forall|j: int| 0 <= j < i ==> (#[trigger] spec_bed_from_index(info.bed_indices@[j])) is Some,
        decreases info.bed_indices@.len() - i,
    {
        let index = info.bed_indices[i];
        match bed_from_index(index) {
            Some(bed) => {
                beds.push(bed);
                assert(beds@ =~= info.bed_indices@.subrange(0, i + 1).map_values(|k: usize| spec_bed_from_index(k)->Some_0));
            },
            None => {
                let mut message = String::from_str("unsupported bed channel index ");
                append_decimal(&mut message, index as u64);
                return Err(TrueHdError::unsupported_layout(message));
            },
        }
        i += 1;
    }
    assert(info.bed_indices@.subrange(0, i as int) =~= info.bed_indices@);
    Ok(LayoutState { bed_channel_order: beds, dynamic_object_count: info.num_dynamic_objects })
}

/// Whether two layouts are the same.
fn same_layout(a: &LayoutState, b: &LayoutState) -> (r: bool)
    ensures
        r == (a@ == b@),
{
    if a.dynamic_object_count != b.dynamic_object_count
        || a.bed_channel_order.len() != b.bed_channel_order.len() {
        return false;
    }
    let mut i: usize = 0;
    while i < a.bed_channel_order.len()
        invariant
            a.bed_channel_order@.len() == b.bed_channel_order@.len(),
            i <= a.bed_channel_order@.len(),
            forall|j: int| 0 <= j < i ==> a.bed_channel_order@[j] == b.bed_channel_order@[j],
        decreases a.bed_channel_order@.len() - i,
    {
        if a.bed_channel_order[i] != b.bed_channel_order[i] {
            return false;
        }
        i += 1;
    }
    assert(a.bed_channel_order@ =~= b.bed_channel_order@);
    true
}

/// Layout that the OAMD payloads of an access unit announce, if there are any.
pub fn layout_from_oamd_payloads(infos: &[OamdInfo]) -> (r: Result<Option<LayoutState>, TrueHdError>)
    ensures
        match spec_layout_from_oamd_payloads(infos@.map_values(|p: OamdInfo| p@)) {
            Ok(None) => r matches Ok(None),
            Ok(Some(m)) => r matches Ok(Some(l)) && l@ == m,
            Err(msg) => r matches Err(e) && e.kind == TrueHdErrorKind::UnsupportedLayout && e.message@ == msg,
        },
{
    let ghost views = infos@.map_values(|p: OamdInfo| p@);
    if infos.len() == 0 {
        return Ok(None);
    }
    let first = layout_from_oamd(&infos[0])?;
    let mut i: usize = 1;
    while i < infos.len()
        invariant
            views == infos@.map_values(|p: OamdInfo| p@),
            1 <= i <= infos@.len(),
            spec_layout_from_oamd(views[0]) == Ok::<LayoutModel, Seq<char>>(first@),
            spec_rest_agree(views, 1, first@) == spec_rest_agree(views, i as int, first@),
        decreases infos@.len() - i,
    {
        let layout = layout_from_oamd(&infos[i])?;
        if !same_layout(&layout, &first) {
            return Err(TrueHdError::unsupported_layout(
                String::from_str("multiple OAMD payloads in one access unit disagree on bed/object layout"),
            ));
        }
        i += 1;
    }
    Ok(Some(first))
}

/// Sample offset of an OAMD payload's object element, zero without one.
pub open spec fn spec_element_sample_offset(info: OamdModel) -> usize {
    match info.object_element {
        Some(e) => e.sample_offset,
        None => 0,
    }
}

/// The element's sample offset plus the evolution frame's sample offset fits in a `usize`
/// whenever the latter does.
pub open spec fn offset_sum_fits(info: OamdModel) -> bool {
    info.evo_sample_offset > usize::MAX || spec_element_sample_offset(info)
        + info.evo_sample_offset <= usize::MAX
}

/// The metadata update of one OAMD payload, as far as the checks go: its sample offset (the
/// element's offset plus the evolution frame's, which must fit in 16 bits), or the kind and
/// message of the first check it fails. After the offset come the layout checks (no ISF
/// objects, known bed indices) and a single object info block.
pub open spec fn spec_metadata_update(info: OamdModel) -> Result<u16, (TrueHdErrorKind, Seq<char>)> {
    if info.evo_sample_offset > usize::MAX {
        Err(
            (
                TrueHdErrorKind::InvalidMetadata,
                "evo sample offset does not fit usize: "@ + spec_decimal(
                    info.evo_sample_offset as nat,
                ),
            ),
        )
    } else {
        let offset = spec_element_sample_offset(info) + info.evo_sample_offset;
        if offset > u16::MAX {
            Err(
                (
                    TrueHdErrorKind::InvalidMetadata,
                    "sample offset out of range: "@ + spec_decimal(offset as nat),
                ),
            )
        } else {
            match spec_layout_from_oamd(info) {
                Err(msg) => Err((TrueHdErrorKind::UnsupportedLayout, msg)),
                Ok(_) => match info.object_element {
                    Some(e) => if e.num_obj_info_blocks > 1 {
                        Err(
                            (
                                TrueHdErrorKind::InvalidMetadata,
                                "multi-block OAMD is not supported yet (blocks="@ + spec_decimal(
                                    e.num_obj_info_blocks as nat,
                                ) + ")"@,
                            ),
                        )
                    } else {
                        Ok(offset as u16)
                    },
                    None => Ok(offset as u16),
                },
            }
        }
    }
}

/// The metadata updates of the payloads from position `i` on, in order, or the first refusal.
pub open spec fn spec_metadata_updates(infos: Seq<OamdModel>, i: int) -> Result<
    Seq<u16>,
    (TrueHdErrorKind, Seq<char>),
>
    decreases infos.len() - i,
{
    if i < 0 || i >= infos.len() {
        Ok(Seq::empty())
    } else {
        match spec_metadata_update(infos[i]) {
            Err(e) => Err(e),
            Ok(offset) => match spec_metadata_updates(infos, i + 1) {
                Ok(rest) => Ok(seq![offset] + rest),
                Err(e) => Err(e),
            },
        }
    }
}

/// Every payload that the checks reach, from position `i` on, has an offset sum that fits.
pub open spec fn offsets_fit_until_refusal(infos: Seq<OamdModel>, i: int) -> bool
    decreases infos.len() - i,
{
    if i < 0 || i >= infos.len() {
        true
    } else {
        offset_sum_fits(infos[i]) && (spec_metadata_update(infos[i]) is Err
            || offsets_fit_until_refusal(infos, i + 1))
    }
}

/// Checks the metadata update of one OAMD payload and returns its sample offset.
pub fn metadata_update_sample_offset(info: &OamdInfo) -> (r: Result<u16, TrueHdError>)
    requires
        offset_sum_fits(info@),
    ensures
        match spec_metadata_update(info@) {
            Ok(offset) => r == Ok::<u16, TrueHdError>(offset),
            Err((kind, msg)) => r matches Err(e) && e.kind == kind && e.message@ == msg,
        },
{
    if info.evo_sample_offset > usize::MAX as u64 {
        let mut message = String::from_str("evo sample offset does not fit usize: ");
        append_decimal(&mut message, info.evo_sample_offset);
        return Err(TrueHdError::invalid_metadata(message));
    }
    let element_offset = match info.object_element {
        Some(e) => e.sample_offset,
        None => 0,
    };
    let offset = element_offset + info.evo_sample_offset as usize;
    if offset > u16::MAX as usize {
        let mut message = String::from_str("sample offset out of range: ");
        append_decimal(&mut message, offset as u64);
        return Err(TrueHdError::invalid_metadata(message));
    }
    let _beds = layout_from_oamd(info)?;
    match info.object_element {
        Some(e) => {
            if e.num_obj_info_blocks > 1 {
                let mut message = String::from_str("multi-block OAMD is not supported yet (blocks=");
                append_decimal(&mut message, e.num_obj_info_blocks as u64);
                message.append(")");
                return Err(TrueHdError::invalid_metadata(message));
            }
        },
        None => {},
    }
    Ok(offset as u16)
}

/// Checks the metadata updates of the OAMD payloads of an access unit, in order, and returns
/// their sample offsets; the first payload that fails stops the checks.
pub fn metadata_update_sample_offsets(infos: &[OamdInfo]) -> (r: Result<Vec<u16>, TrueHdError>)
    requires
        offsets_fit_until_refusal(oamd_views(infos@), 0),
    ensures
        match spec_metadata_updates(oamd_views(infos@), 0) {
            Ok(offsets) => r matches Ok(v) && v@ == offsets,
            Err((kind, msg)) => r matches Err(e) && e.kind == kind && e.message@ == msg,
        },
{
    let ghost views = oamd_views(infos@);
    let mut offsets: Vec<u16> = Vec::new();
    let mut i: usize = 0;
    while i < infos.len()
        invariant
            views == oamd_views(infos@),
            i <= infos@.len(),
            offsets_fit_until_refusal(views, i as int),
            spec_metadata_updates(views, 0) == match spec_metadata_updates(views, i as int) {
                Ok(rest) => Ok(offsets@ + rest),
                Err(e) => Err(e),
            },
        decreases infos@.len() - i,
    {
        assert(views[i as int] == infos@[i as int]@);
        let offset = metadata_update_sample_offset(&infos[i])?;
        let ghost before = offsets@;
        offsets.push(offset);
        proof {
            match spec_metadata_updates(views, i + 1) {
                Ok(rest) => {
                    assert(before + (seq![offset] + rest) =~= offsets@ + rest);
                },
                Err(e) => {},
            }
        }
        i += 1;
    }
    assert(offsets@ + Seq::<u16>::empty() =~= offsets@);
    Ok(offsets)
}

/// The labels written as a list, `[L, R, ...]`.
pub open spec fn spec_labels_text(labels: Seq<ChannelLabel>) -> Seq<char>
    decreases labels.len(),
{
    if labels.len() == 0 {
        "["@ + "]"@
    } else {
        let init = spec_labels_text(labels.drop_last());
        let body = init.subrange(0, init.len() - 1);
        let sep = if labels.len() > 1 {
            ", "@
        } else {
            Seq::<char>::empty()
        };
        body + sep + spec_label_name(labels.last())@ + "]"@
    }
}

/// Writes the labels as a list, `[L, R, ...]`.
fn labels_text(labels: &[ChannelLabel]) -> (s: String)
    ensures
        s@ == spec_labels_text(labels@),
{
    proof {
        reveal_strlit("[");
        reveal_strlit("]");
        reveal_strlit(", ");
    }
    let mut body = String::from_str("[");
    let mut i: usize = 0;
    assert(labels@.subrange(0, 0) =~= Seq::<ChannelLabel>::empty());
    while i < labels.len()
        invariant
            i <= labels@.len(),
            body@ + "]"@ == spec_labels_text(labels@.subrange(0, i as int)),
        decreases labels@.len() - i,
    {
        proof {
            reveal_strlit("]");
            reveal_strlit(", ");
            let prefix = labels@.subrange(0, i as int + 1);
            assert(prefix.drop_last() =~= labels@.subrange(0, i as int));
            let init = spec_labels_text(prefix.drop_last());
            assert(init == body@ + "]"@);
            assert(init.subrange(0, init.len() - 1) =~= body@);
        }
        if i > 0 {
            body.append(", ");
        }
        body.append(labels[i].name());
        i += 1;
    }
    assert(labels@.subrange(0, i as int) =~= labels@);
    body.append("]");
    body
}

/// Layout of a decoded access unit: the one its OAMD payloads announce, else the one its
/// channel labels give, else the layout of the previous access unit when it still fits the
/// channel count.
pub open spec fn spec_resolve_layout(
    cached: Option<LayoutModel>,
    labels: Seq<ChannelLabel>,
    channel_count: usize,
    oamd: Seq<OamdModel>,
) -> Result<LayoutModel, TrueHdErrorKind> {
    match spec_layout_from_oamd_payloads(oamd) {
        Err(_) => Err(TrueHdErrorKind::UnsupportedLayout),
        Ok(Some(layout)) => Ok(layout),
        Ok(None) => match spec_layout_from_labels(labels, channel_count) {
            Err(kind) => Err(kind),
            Ok(Some(layout)) => Ok(layout),
            Ok(None) => match cached {
                Some(layout) => if layout_fits(layout, channel_count) {
                    Ok(layout)
                } else {
                    Err(TrueHdErrorKind::UnsupportedLayout)
                },
                None => Err(TrueHdErrorKind::UnsupportedLayout),
            },
        },
    }
}

/// Views of OAMD layout inputs.
pub open spec fn oamd_views(oamd: Seq<OamdInfo>) -> Seq<OamdModel> {
    oamd.map_values(|p: OamdInfo| p@)
}

/// Resolves the layout of a decoded access unit.
pub fn resolve_layout(
    cached_layout: Option<&LayoutState>,
    channel_labels: &[ChannelLabel],
    channel_count: usize,
    oamd_payloads: &[OamdInfo],
) -> (r: Result<LayoutState, TrueHdError>)
    ensures
        match spec_resolve_layout(
            match cached_layout {
                Some(l) => Some(l@),
                None => None,
            },
            channel_labels@,
            channel_count,
            oamd_views(oamd_payloads@),
        ) {
            Ok(m) => r matches Ok(l) && l@ == m,
            Err(kind) => r matches Err(e) && e.kind == kind,
        },
        spec_layout_from_oamd_payloads(oamd_views(oamd_payloads@)) matches Err(msg) ==> r matches Err(e)
            && e.message@ == msg,
        (spec_layout_from_oamd_payloads(oamd_views(oamd_payloads@)) == Ok::<Option<LayoutModel>, Seq<char>>(None)
            && spec_layout_from_labels(channel_labels@, channel_count) is Err) ==> (r matches Err(e)
            && e.message@ == "unsupported TrueHD bed label "@ + spec_label_name(
            channel_labels@[first_non_bed(channel_labels@)],
        )@),
        (spec_layout_from_oamd_payloads(oamd_views(oamd_payloads@)) == Ok::<Option<LayoutModel>, Seq<char>>(None)
            && spec_layout_from_labels(channel_labels@, channel_count) == Ok::<Option<LayoutModel>, TrueHdErrorKind>(None)
            && r is Err) ==> (r matches Err(e) && e.message@ == "unable to resolve layout for channel_count="@
            + spec_decimal(channel_count as nat) + " labels="@ + spec_labels_text(channel_labels@)),
{
    if let Some(layout) = layout_from_oamd_payloads(oamd_payloads)? {
        return Ok(layout);
    }
    if let Some(layout) = layout_from_channel_labels(channel_labels, channel_count)? {
        return Ok(layout);
    }
    if let Some(layout) = cached_layout {
        let beds = layout.bed_channel_order.len();
        if beds <= channel_count && channel_count - beds == layout.dynamic_object_count {
            return Ok(copy_layout(layout));
        }
    }
    let mut message = String::from_str("unable to resolve layout for channel_count=");
    append_decimal(&mut message, channel_count as u64);
    message.append(" labels=");
    let list = labels_text(channel_labels);
    message.append(list.as_str());
    assert(message@ =~= "unable to resolve layout for channel_count="@ + spec_decimal(
        channel_count as nat,
    ) + " labels="@ + spec_labels_text(channel_labels@));
    Err(TrueHdError::unsupported_layout(message))
}

/// TrueHD object decoder state that outlives one access unit: the counters, the failure level
/// of validation messages, and the layout of the last decoded access unit.
pub struct ObjectPcmDecoder {
    pub access_units_seen: u64,
    pub frames_seen: u64,
    pub fail_level: FailLevel,
    pub layout: Option<LayoutState>,
}

impl ObjectPcmDecoder {
    /// No more object frames were emitted than access units were accepted.
    pub open spec fn counts_consistent(&self) -> bool {
        self.frames_seen <= self.access_units_seen
    }

    /// A fresh decoder: nothing seen, no layout.
    pub fn new() -> (d: Self)
        ensures
            d.counts_consistent(),
            d.access_units_seen == 0,
            d.frames_seen == 0,
            d.layout is None,
            d.fail_level == FailLevel::Error,
    {
        ObjectPcmDecoder {
            access_units_seen: 0,
            frames_seen: 0,
            fail_level: FailLevel::Error,
            layout: None,
        }
    }

    /// Resets all cross-access-unit state.
    pub fn reset(&mut self)
        ensures
            final(self).access_units_seen == 0,
            final(self).frames_seen == 0,
            final(self).layout is None,
            final(self).fail_level == FailLevel::Error,
            final(self).counts_consistent(),
    {
        *self = Self::new();
    }

    /// Sets the level at which validation messages fail.
    pub fn set_fail_level(&mut self, level: FailLevel)
        ensures
            final(self).fail_level == level,
            final(self).access_units_seen == old(self).access_units_seen,
            final(self).frames_seen == old(self).frames_seen,
            final(self).layout == old(self).layout,
    {
        self.fail_level = level;
    }

    /// Number of access units accepted since the last reset.
    pub fn access_units_seen(&self) -> (n: u64)
        ensures
            n == self.access_units_seen,
    {
        self.access_units_seen
    }

    /// Number of object frames emitted since the last reset.
    pub fn frames_seen(&self) -> (n: u64)
        ensures
            n == self.frames_seen,
    {
        self.frames_seen
    }

    /// Accounts for one decoded access unit with `channel_count` channels labelled
    /// `channel_labels` and carrying `oamd_payloads`: counts it and resolves its layout. A
    /// layout without dynamic objects is kept and nothing is returned. A layout with objects
    /// must fit the channel count and the payloads' metadata updates must pass their checks;
    /// then the layout is kept, the access unit counts as an emitted frame, and the layout
    /// and the updates' sample offsets are returned. On an error the layout and the frame
    /// count stay as they were.
    pub fn accept_decoded_layout(
        &mut self,
        channel_labels: &[ChannelLabel],
        channel_count: usize,
        oamd_payloads: &[OamdInfo],
    ) -> (r: Result<Option<(LayoutState, Vec<u16>)>, TrueHdError>)
        requires
            old(self).access_units_seen < u64::MAX,
            old(self).frames_seen < u64::MAX,
            reaches_metadata_checks(
                match old(self).layout {
                    Some(l) => Some(l@),
                    None => None,
                },
                channel_labels@,
                channel_count,
                oamd_views(oamd_payloads@),
            ) ==> offsets_fit_until_refusal(oamd_views(oamd_payloads@), 0),
        ensures
            final(self).fail_level == old(self).fail_level,
            counts_step(*old(self), *final(self), r),
            old(self).counts_consistent() ==> final(self).counts_consistent(),
            match spec_resolve_layout(
                match old(self).layout {
                    Some(l) => Some(l@),
                    None => None,
                },
                channel_labels@,
                channel_count,
                oamd_views(oamd_payloads@),
            ) {
                Ok(m) => if m.dynamic_object_count == 0 {
                    &&& final(self).layout matches Some(l) && l@ == m
                    &&& r matches Ok(None)
                } else if layout_fits(m, channel_count) {
                    match spec_metadata_updates(oamd_views(oamd_payloads@), 0) {
                        Ok(offsets) => {
                            &&& final(self).layout matches Some(l) && l@ == m
                            &&& r matches Ok(Some((l, v))) && l@ == m && v@ == offsets
                        },
                        Err((kind, msg)) => {
                            &&& r matches Err(e) && e.kind == kind && e.message@ == msg
                            &&& final(self).layout == old(self).layout
                        },
                    }
                } else {
                    &&& r matches Err(e) && e.kind == TrueHdErrorKind::UnsupportedLayout
                        && e.message@ == "channel-count mismatch decoded="@ + spec_decimal(
                        channel_count as nat,
                    ) + " bed="@ + spec_decimal(m.bed_channel_order.len()) + " dynamic="@
                        + spec_decimal(m.dynamic_object_count as nat)
                    &&& final(self).layout == old(self).layout
                },
                Err(kind) => r matches Err(e) && e.kind == kind && final(self).layout
                    == old(self).layout,
            },
    {
        self.access_units_seen += 1;
        let layout = resolve_layout(self.layout.as_ref(), channel_labels, channel_count, oamd_payloads)?;
        let beds = layout.bed_channel_order.len();
        if layout.dynamic_object_count == 0 {
            self.layout = Some(layout);
            return Ok(None);
        }
        if beds > channel_count || channel_count - beds != layout.dynamic_object_count {
            let mut message = String::from_str("channel-count mismatch decoded=");
            append_decimal(&mut message, channel_count as u64);
            message.append(" bed=");
            append_decimal(&mut message, beds as u64);
            message.append(" dynamic=");
            append_decimal(&mut message, layout.dynamic_object_count as u64);
            assert(message@ =~= "channel-count mismatch decoded="@ + spec_decimal(channel_count as nat)
                + " bed="@ + spec_decimal(beds as nat) + " dynamic="@ + spec_decimal(
                layout.dynamic_object_count as nat,
            ));
            return Err(TrueHdError::unsupported_layout(message));
        }
        let offsets = metadata_update_sample_offsets(oamd_payloads)?;
        self.layout = Some(copy_layout(&layout));
        self.frames_seen += 1;
        Ok(Some((layout, offsets)))
    }
}

/// Whether an access unit reaches the metadata checks: its layout resolves to one with dynamic
/// objects that fits the channel count.
pub open spec fn reaches_metadata_checks(
    cached: Option<LayoutModel>,
    labels: Seq<ChannelLabel>,
    channel_count: usize,
    oamd: Seq<OamdModel>,
) -> bool {
    match spec_resolve_layout(cached, labels, channel_count, oamd) {
        Ok(m) => m.dynamic_object_count != 0 && layout_fits(m, channel_count),
        Err(_) => false,
    }
}

/// The counters after one accepted access unit: one more access unit, and one more frame when
/// the access unit emitted one.
pub open spec fn spec_counts_after(access_units: nat, frames: nat, emitted: bool) -> (nat, nat) {
    (access_units + 1, if emitted {
        frames + 1
    } else {
        frames
    })
}

/// Whether a result of [`ObjectPcmDecoder::accept_decoded_layout`] emitted an object frame.
pub open spec fn emitted_frame(r: Result<Option<(LayoutState, Vec<u16>)>, TrueHdError>) -> bool {
    r matches Ok(Some(_))
}

/// One call of [`ObjectPcmDecoder::accept_decoded_layout`] took the counters of `before` to
/// those of `after` with result `r`: one more access unit, and one more frame when `r`
/// emitted one.
pub open spec fn counts_step(
    before: ObjectPcmDecoder,
    after: ObjectPcmDecoder,
    r: Result<Option<(LayoutState, Vec<u16>)>, TrueHdError>,
) -> bool {
    (after.access_units_seen as nat, after.frames_seen as nat) == spec_counts_after(
        before.access_units_seen as nat,
        before.frames_seen as nat,
        emitted_frame(r),
    )
}

/// Number of results that emitted an object frame.
pub open spec fn spec_emitted_count(results: Seq<Result<Option<(LayoutState, Vec<u16>)>, TrueHdError>>) -> nat
    decreases results.len(),
{
    if results.len() == 0 {
        0
    } else {
        spec_emitted_count(results.drop_last()) + if emitted_frame(results.last()) {
            1nat
        } else {
            0nat
        }
    }
}

/// From a fresh or reset decoder, through any sequence of accepted access units (decoder
/// states `states`, results `results`), the decoder has counted every access unit and exactly
/// those whose result emitted an object frame, so it never counts more frames than access
/// units.
pub proof fn lemma_frames_seen_counts_emitted_frames(
    states: Seq<ObjectPcmDecoder>,
    results: Seq<Result<Option<(LayoutState, Vec<u16>)>, TrueHdError>>,
)
    requires
        states.len() == results.len() + 1,
        states[0].access_units_seen == 0,
        states[0].frames_seen == 0,
        forall|i: int| 0 <= i < results.len() ==> counts_step(states[i], states[i + 1], #[trigger] results[i]),
    ensures
        states.last().access_units_seen == results.len(),
        states.last().frames_seen == spec_emitted_count(results),
        states.last().frames_seen <= states.last().access_units_seen,
    decreases results.len(),
{
    if results.len() > 0 {
        let n = results.len() - 1;
        assert forall|i: int| 0 <= i < results.drop_last().len() implies counts_step(
            states.drop_last()[i],
            states.drop_last()[i + 1],
            #[trigger] results.drop_last()[i],
        ) by {
            assert(results.drop_last()[i] == results[i]);
        }
        lemma_frames_seen_counts_emitted_frames(states.drop_last(), results.drop_last());
        assert(counts_step(states[n], states[n + 1], results[n as int]));
    }
}

} // verus!
