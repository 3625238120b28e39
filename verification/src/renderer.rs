//! Bed channels, the fixed 7.1.4 output layout, and the renderer's error and metadata types.

use crate::text::{append_decimal, spec_decimal};
use vstd::prelude::*;
use vstd::string::StringExecFns;

verus! {

/// A speaker / bed channel identifier.
#[derive(Debug, Clone, Copy, PartialEq, Eq, Hash, Structural)]
pub enum BedChannel {
    FrontLeft,
    FrontRight,
    Center,
    LowFrequencyEffects,
    SurroundLeft,
    SurroundRight,
    RearLeft,
    RearRight,
    TopFrontLeft,
    TopFrontRight,
    TopSurroundLeft,
    TopSurroundRight,
    TopRearLeft,
    TopRearRight,
    WideLeft,
    WideRight,
    LowFrequencyEffects2,
}

/// Number of output channels of the 7.1.4 renderer.
pub const RENDER_714_CHANNELS: usize = 12;

/// Index of the LFE channel in the 7.1.4 output.
pub const RENDER_714_LFE_INDEX: usize = 3;

/// The bed channel carried at index `i` of the 7.1.4 output.
pub open spec fn spec_render_714_channel(i: int) -> BedChannel {
    if i == 0 {
        BedChannel::FrontLeft
    } else if i == 1 {
        BedChannel::FrontRight
    } else if i == 2 {
        BedChannel::Center
    } else if i == 3 {
        BedChannel::LowFrequencyEffects
    } else if i == 4 {
        BedChannel::RearLeft
    } else if i == 5 {
        BedChannel::RearRight
    } else if i == 6 {
        BedChannel::SurroundLeft
    } else if i == 7 {
        BedChannel::SurroundRight
    } else if i == 8 {
        BedChannel::TopFrontLeft
    } else if i == 9 {
        BedChannel::TopFrontRight
    } else if i == 10 {
        BedChannel::TopRearLeft
    } else {
        BedChannel::TopRearRight
    }
}

/// Fixed output channel order of the 7.1.4 renderer.
pub const RENDER_714_CHANNEL_ORDER: [BedChannel; 12] = [
    BedChannel::FrontLeft,
    BedChannel::FrontRight,
    BedChannel::Center,
    BedChannel::LowFrequencyEffects,
    BedChannel::RearLeft,
    BedChannel::RearRight,
    BedChannel::SurroundLeft,
    BedChannel::SurroundRight,
    BedChannel::TopFrontLeft,
    BedChannel::TopFrontRight,
    BedChannel::TopRearLeft,
    BedChannel::TopRearRight,
];

/// Index `i` of [`RENDER_714_CHANNEL_ORDER`] holds the channel that the layout puts there.
pub proof fn lemma_channel_order_entries(i: int)
    requires
        0 <= i < 12,
    ensures
        RENDER_714_CHANNEL_ORDER@[i] == spec_render_714_channel(i),
{
}

/// Output index of a bed channel that the 7.1.4 layout carries directly.
pub open spec fn spec_map_bed_channel_to_714(channel: BedChannel) -> Option<usize> {
    match channel {
        BedChannel::FrontLeft => Some(0),
        BedChannel::FrontRight => Some(1),
        BedChannel::Center => Some(2),
        BedChannel::LowFrequencyEffects => Some(3),
        BedChannel::RearLeft => Some(4),
        BedChannel::RearRight => Some(5),
        BedChannel::SurroundLeft => Some(6),
        BedChannel::SurroundRight => Some(7),
        BedChannel::TopFrontLeft => Some(8),
        BedChannel::TopFrontRight => Some(9),
        BedChannel::TopRearLeft => Some(10),
        BedChannel::TopRearRight => Some(11),
        BedChannel::TopSurroundLeft => None,
        BedChannel::TopSurroundRight => None,
        BedChannel::WideLeft => None,
        BedChannel::WideRight => None,
        BedChannel::LowFrequencyEffects2 => None,
    }
}

/// Output index of a bed channel that the 7.1.4 layout carries directly; top-side, wide and
/// second LFE beds have none.
pub fn map_bed_channel_to_714(channel: BedChannel) -> (r: Option<usize>)
    ensures
        r == spec_map_bed_channel_to_714(channel),
{
    match channel {
        BedChannel::FrontLeft => Some(0),
        BedChannel::FrontRight => Some(1),
        BedChannel::Center => Some(2),
        BedChannel::LowFrequencyEffects => Some(3),
        BedChannel::RearLeft => Some(4),
        BedChannel::RearRight => Some(5),
        BedChannel::SurroundLeft => Some(6),
        BedChannel::SurroundRight => Some(7),
        BedChannel::TopFrontLeft => Some(8),
        BedChannel::TopFrontRight => Some(9),
        BedChannel::TopRearLeft => Some(10),
        BedChannel::TopRearRight => Some(11),
        BedChannel::TopSurroundLeft
        | BedChannel::TopSurroundRight
        | BedChannel::WideLeft
        | BedChannel::WideRight
        | BedChannel::LowFrequencyEffects2 => None,
    }
}

/// The direct bed mapping and the output order agree: each output index holds the channel
/// that maps to it, and every mapped channel lands on an index whose channel it is.
pub proof fn lemma_channel_order_matches_mapping(i: int, channel: BedChannel)
    ensures
        0 <= i < 12 ==> spec_map_bed_channel_to_714(spec_render_714_channel(i)) == Some(
            i as usize,
        ),
        spec_map_bed_channel_to_714(channel) matches Some(k) ==> k < 12
            && spec_render_714_channel(k as int) == channel,
{
}

/// Errors returned by the 7.1.4 renderer.
#[derive(Debug, Clone, PartialEq, Eq)]
pub enum Render714Error {
    MissingOamd,
    OamdStateUninitialized,
    ObjectCountMismatch { expected: usize, provided: usize },
    BedChannelCountMismatch { expected: usize, provided: usize },
    UnsupportedSampleCount(usize),
    UnsupportedBedChannel(BedChannel),
    SampleRateChanged { expected: u32, provided: u32 },
}

/// Name of a bed channel's variant, as debugging output spells it.
pub open spec fn spec_bed_channel_variant_name(channel: BedChannel) -> Seq<char> {
    match channel {
        BedChannel::FrontLeft => "FrontLeft"@,
        BedChannel::FrontRight => "FrontRight"@,
        BedChannel::Center => "Center"@,
        BedChannel::LowFrequencyEffects => "LowFrequencyEffects"@,
        BedChannel::SurroundLeft => "SurroundLeft"@,
        BedChannel::SurroundRight => "SurroundRight"@,
        BedChannel::RearLeft => "RearLeft"@,
        BedChannel::RearRight => "RearRight"@,
        BedChannel::TopFrontLeft => "TopFrontLeft"@,
        BedChannel::TopFrontRight => "TopFrontRight"@,
        BedChannel::TopSurroundLeft => "TopSurroundLeft"@,
        BedChannel::TopSurroundRight => "TopSurroundRight"@,
        BedChannel::TopRearLeft => "TopRearLeft"@,
        BedChannel::TopRearRight => "TopRearRight"@,
        BedChannel::WideLeft => "WideLeft"@,
        BedChannel::WideRight => "WideRight"@,
        BedChannel::LowFrequencyEffects2 => "LowFrequencyEffects2"@,
    }
}

impl BedChannel {
    /// Name of the channel's variant, as debugging output spells it.
    pub fn variant_name(&self) -> (s: &'static str)
        ensures
            s@ == spec_bed_channel_variant_name(*self),
    {
        match self {
            BedChannel::FrontLeft => "FrontLeft",
            BedChannel::FrontRight => "FrontRight",
            BedChannel::Center => "Center",
            BedChannel::LowFrequencyEffects => "LowFrequencyEffects",
            BedChannel::SurroundLeft => "SurroundLeft",
            BedChannel::SurroundRight => "SurroundRight",
            BedChannel::RearLeft => "RearLeft",
            BedChannel::RearRight => "RearRight",
            BedChannel::TopFrontLeft => "TopFrontLeft",
            BedChannel::TopFrontRight => "TopFrontRight",
            BedChannel::TopSurroundLeft => "TopSurroundLeft",
            BedChannel::TopSurroundRight => "TopSurroundRight",
            BedChannel::TopRearLeft => "TopRearLeft",
            BedChannel::TopRearRight => "TopRearRight",
            BedChannel::WideLeft => "WideLeft",
            BedChannel::WideRight => "WideRight",
            BedChannel::LowFrequencyEffects2 => "LowFrequencyEffects2",
        }
    }
}

/// Text of a renderer error.
pub open spec fn spec_render_error_text(e: Render714Error) -> Seq<char> {
    match e {
        Render714Error::MissingOamd => "missing-oamd"@,
        Render714Error::OamdStateUninitialized => "oamd-state-uninitialized"@,
        Render714Error::ObjectCountMismatch { expected, provided } => "object-count-mismatch expected="@
            + spec_decimal(expected as nat) + " provided="@ + spec_decimal(provided as nat),
        Render714Error::BedChannelCountMismatch { expected, provided } =>
            "bed-channel-count-mismatch expected="@ + spec_decimal(expected as nat) + " provided="@
            + spec_decimal(provided as nat),
        Render714Error::UnsupportedSampleCount(samples) => "unsupported-sample-count "@
            + spec_decimal(samples as nat),
        Render714Error::UnsupportedBedChannel(channel) => "unsupported-bed-channel "@
            + spec_bed_channel_variant_name(channel),
        Render714Error::SampleRateChanged { expected, provided } => "sample-rate-changed expected="@
            + spec_decimal(expected as nat) + " provided="@ + spec_decimal(provided as nat),
    }
}

impl Render714Error {
    /// Text of the error.
    pub fn to_string(&self) -> (s: String)
        ensures
            s@ == spec_render_error_text(*self),
    {
        let mut out = String::new();
        match self {
            Render714Error::MissingOamd => out.append("missing-oamd"),
            Render714Error::OamdStateUninitialized => out.append("oamd-state-uninitialized"),
            Render714Error::ObjectCountMismatch { expected, provided } => {
                out.append("object-count-mismatch expected=");
                append_decimal(&mut out, *expected as u64);
                out.append(" provided=");
                append_decimal(&mut out, *provided as u64);
            },
            Render714Error::BedChannelCountMismatch { expected, provided } => {
                out.append("bed-channel-count-mismatch expected=");
                append_decimal(&mut out, *expected as u64);
                out.append(" provided=");
                append_decimal(&mut out, *provided as u64);
            },
            Render714Error::UnsupportedSampleCount(samples) => {
                out.append("unsupported-sample-count ");
                append_decimal(&mut out, *samples as u64);
            },
            Render714Error::UnsupportedBedChannel(channel) => {
                out.append("unsupported-bed-channel ");
                out.append(channel.variant_name());
            },
            Render714Error::SampleRateChanged { expected, provided } => {
                out.append("sample-rate-changed expected=");
                append_decimal(&mut out, *expected as u64);
                out.append(" provided=");
                append_decimal(&mut out, *provided as u64);
            },
        }
        assert(out@ =~= spec_render_error_text(*self));
        out
    }
}

/// One block update inside a renderer metadata element.
#[derive(Debug, Clone, PartialEq, Eq)]
pub struct RenderMetadataBlockUpdate {
    pub offset: i64,
    pub ramp_duration: i64,
}

/// Completes a speaker layer whose loudspeakers were found only on some sides: a missing
/// left or right takes its partner, and a missing front (rear) pair takes the rear (front)
/// pair.
pub open spec fn spec_fix_incomplete_layer(
    fl: Option<usize>,
    fr: Option<usize>,
    rl: Option<usize>,
    rr: Option<usize>,
) -> (Option<usize>, Option<usize>, Option<usize>, Option<usize>) {
    let (fl1, fr1, rl1, rr1) = if fl is Some || fr is Some {
        let fl_a = if fl is None {
            fr
        } else {
            fl
        };
        let fr_a = if fr is None {
            fl_a
        } else {
            fr
        };
        if rl is None && rr is None {
            (fl_a, fr_a, fl_a, fr_a)
        } else {
            (fl_a, fr_a, rl, rr)
        }
    } else {
        (fl, fr, rl, rr)
    };
    if rl1 is Some || rr1 is Some {
        let rl_b = if rl1 is None {
            rr1
        } else {
            rl1
        };
        let rr_b = if rr1 is None {
            rl_b
        } else {
            rr1
        };
        if fl1 is None && fr1 is None {
            (rl_b, rr_b, rl_b, rr_b)
        } else {
            (fl1, fr1, rl_b, rr_b)
        }
    } else {
        (fl1, fr1, rl1, rr1)
    }
}

/// Completes a speaker layer whose loudspeakers were found only on some sides.
pub fn fix_incomplete_layer(
    front_left: &mut Option<usize>,
    front_right: &mut Option<usize>,
    rear_left: &mut Option<usize>,
    rear_right: &mut Option<usize>,
)
    ensures
        (*final(front_left), *final(front_right), *final(rear_left), *final(rear_right))
            == spec_fix_incomplete_layer(
            *old(front_left),
            *old(front_right),
            *old(rear_left),
            *old(rear_right),
        ),
{
    if front_left.is_some() || front_right.is_some() {
        if front_left.is_none() {
            *front_left = *front_right;
        }
        if front_right.is_none() {
            *front_right = *front_left;
        }
        if rear_left.is_none() && rear_right.is_none() {
            *rear_left = *front_left;
            *rear_right = *front_right;
        }
    }
    if rear_left.is_some() || rear_right.is_some() {
        if rear_left.is_none() {
            *rear_left = *rear_right;
        }
        if rear_right.is_none() {
            *rear_right = *rear_left;
        }
        if front_left.is_none() && front_right.is_none() {
            *front_left = *rear_left;
            *front_right = *rear_right;
        }
    }
}

/// A layer with at least one loudspeaker comes out complete: all four corners are set, and
/// every corner that was set keeps its loudspeaker.
pub proof fn lemma_fixed_layer_is_complete(
    fl: Option<usize>,
    fr: Option<usize>,
    rl: Option<usize>,
    rr: Option<usize>,
)
    ensures
        ({
            let (a, b, c, d) = spec_fix_incomplete_layer(fl, fr, rl, rr);
            &&& (fl is Some || fr is Some || rl is Some || rr is Some) ==> (a is Some && b is Some
                && c is Some && d is Some)
            &&& (fl is None && fr is None && rl is None && rr is None) ==> (a is None && b is None
                && c is None && d is None)
            &&& fl is Some ==> a == fl
            &&& fr is Some ==> b == fr
            &&& rl is Some ==> c == rl
            &&& rr is Some ==> d == rr
        }),
{
}

/// Samples per channel of a render input: the length of the first bed channel, else of the
/// first object channel, else zero.
pub open spec fn spec_samples_per_channel(bed_lengths: Seq<usize>, object_lengths: Seq<usize>) -> usize {
    if bed_lengths.len() > 0 {
        bed_lengths[0]
    } else if object_lengths.len() > 0 {
        object_lengths[0]
    } else {
        0
    }
}

/// The first length from position `i` on that differs from `samples`.
pub open spec fn spec_first_mismatch(lengths: Seq<usize>, samples: usize, i: int) -> Option<usize>
    decreases lengths.len() - i,
{
    if i < 0 || i >= lengths.len() {
        None
    } else if lengths[i] != samples {
        Some(lengths[i])
    } else {
        spec_first_mismatch(lengths, samples, i + 1)
    }
}

/// The common length of all input channels, or the first length (bed channels first) that
/// differs from it.
pub open spec fn spec_validate_sample_counts(bed_lengths: Seq<usize>, object_lengths: Seq<usize>) -> Result<usize, Render714Error> {
    let samples = spec_samples_per_channel(bed_lengths, object_lengths);
    match spec_first_mismatch(bed_lengths, samples, 0) {
        Some(len) => Err(Render714Error::UnsupportedSampleCount(len)),
        None => match spec_first_mismatch(object_lengths, samples, 0) {
            Some(len) => Err(Render714Error::UnsupportedSampleCount(len)),
            None => Ok(samples),
        },
    }
}

/// The first length that differs from `samples`.
fn first_mismatch(lengths: &[usize], samples: usize) -> (r: Option<usize>)
    ensures
        r == spec_first_mismatch(lengths@, samples, 0),
{
    let mut i: usize = 0;
    while i < lengths.len()
        invariant
            i <= lengths@.len(),
            spec_first_mismatch(lengths@, samples, 0) == spec_first_mismatch(lengths@, samples, i as int),
        decreases lengths@.len() - i,
    {
        if lengths[i] != samples {
            return Some(lengths[i]);
        }
        i += 1;
    }
    None
}

/// Checks that every input channel, given by its length, carries the same number of samples,
/// and returns that number.
pub fn validate_sample_counts(bed_lengths: &[usize], object_lengths: &[usize]) -> (r: Result<usize, Render714Error>)
    ensures
        r == spec_validate_sample_counts(bed_lengths@, object_lengths@),
{
    let samples = if bed_lengths.len() > 0 {
        bed_lengths[0]
    } else if object_lengths.len() > 0 {
        object_lengths[0]
    } else {
        0
    };
    if let Some(len) = first_mismatch(bed_lengths, samples) {
        return Err(Render714Error::UnsupportedSampleCount(len));
    }
    if let Some(len) = first_mismatch(object_lengths, samples) {
        return Err(Render714Error::UnsupportedSampleCount(len));
    }
    Ok(samples)
}

/// Where one metadata bed channel is mixed from and to.
#[derive(Debug, Clone, Copy, PartialEq, Eq, Structural)]
pub struct BedRoute {
    /// Index of the input bed channel that carries it.
    pub input_index: usize,
    /// Index of the 7.1.4 output channel it is mixed into.
    pub output_index: usize,
    /// Whether it is the LFE channel, mixed with the LFE send gain.
    pub lfe_send: bool,
}

/// Number of occurrences of `channel` in `channels`.
pub open spec fn spec_count_channel(channels: Seq<BedChannel>, channel: BedChannel) -> nat
    decreases channels.len(),
{
    if channels.len() == 0 {
        0
    } else {
        spec_count_channel(channels.drop_last(), channel) + if channels.last() == channel {
            1nat
        } else {
            0nat
        }
    }
}

/// Position of the first occurrence of `channel` in `channels`, from position `i` on.
pub open spec fn spec_find_channel(channels: Seq<BedChannel>, channel: BedChannel, i: int) -> Option<int>
    decreases channels.len() - i,
{
    if i < 0 || i >= channels.len() {
        None
    } else if channels[i] == channel {
        Some(i)
    } else {
        spec_find_channel(channels, channel, i + 1)
    }
}

/// The routes of the metadata bed channels from position `i` on: each comes from the first
/// input channel with its label and goes to its 7.1.4 output; a label without an input channel
/// is a count mismatch for that label, and a label with no 7.1.4 output is unsupported.
pub open spec fn spec_routes_from(inputs: Seq<BedChannel>, metadata: Seq<BedChannel>, i: int) -> Result<Seq<BedRoute>, Render714Error>
    decreases metadata.len() - i,
{
    if i < 0 || i >= metadata.len() {
        Ok(Seq::empty())
    } else {
        let channel = metadata[i];
        match spec_find_channel(inputs, channel, 0) {
            None => Err(
                Render714Error::BedChannelCountMismatch {
                    expected: spec_count_channel(metadata, channel) as usize,
                    provided: spec_count_channel(inputs, channel) as usize,
                },
            ),
            Some(k) => match spec_map_bed_channel_to_714(channel) {
                None => Err(Render714Error::UnsupportedBedChannel(channel)),
                Some(o) => match spec_routes_from(inputs, metadata, i + 1) {
                    Ok(rest) => Ok(
                        seq![BedRoute { input_index: k as usize, output_index: o, lfe_send: channel == BedChannel::LowFrequencyEffects }]
                            + rest,
                    ),
                    Err(e) => Err(e),
                },
            },
        }
    }
}

/// The routes of all metadata bed channels, when there is one bed source per metadata bed
/// channel.
pub open spec fn spec_route_bed_channels(inputs: Seq<BedChannel>, metadata: Seq<BedChannel>, bed_sources: usize) -> Result<Seq<BedRoute>, Render714Error> {
    if metadata.len() != bed_sources {
        Err(
            Render714Error::BedChannelCountMismatch {
                expected: metadata.len() as usize,
                provided: bed_sources,
            },
        )
    } else {
        spec_routes_from(inputs, metadata, 0)
    }
}

/// Number of occurrences of `channel` in `channels`.
fn count_channel(channels: &[BedChannel], channel: BedChannel) -> (n: usize)
    ensures
        n == spec_count_channel(channels@, channel),
{
    let mut n: usize = 0;
    let mut i: usize = 0;
    while i < channels.len()
        invariant
            i <= channels@.len(),
            n == spec_count_channel(channels@.take(i as int), channel),
            n <= i,
        decreases channels@.len() - i,
    {
        assert(channels@.take(i + 1).drop_last() =~= channels@.take(i as int));
        if channels[i] == channel {
            n += 1;
        }
        i += 1;
    }
    assert(channels@.take(i as int) =~= channels@);
    n
}

/// Position of the first occurrence of `channel` in `channels`.
fn find_channel(channels: &[BedChannel], channel: BedChannel) -> (r: Option<usize>)
    ensures
        match spec_find_channel(channels@, channel, 0) {
            Some(k) => r == Some(k as usize),
            None => r is None,
        },
{
    let mut i: usize = 0;
    while i < channels.len()
        invariant
            i <= channels@.len(),
            spec_find_channel(channels@, channel, 0) == spec_find_channel(channels@, channel, i as int),
        decreases channels@.len() - i,
    {
        if channels[i] == channel {
            return Some(i);
        }
        i += 1;
    }
    None
}

/// Decides how the bed channels named by the object metadata are mixed into the 7.1.4 output:
/// for each, the input bed channel with its label and the output channel it goes to.
pub fn route_bed_channels(inputs: &[BedChannel], metadata: &[BedChannel], bed_sources: usize) -> (r: Result<Vec<BedRoute>, Render714Error>)
    ensures
        match spec_route_bed_channels(inputs@, metadata@, bed_sources) {
            Ok(routes) => r matches Ok(v) && v@ == routes,
            Err(e) => r == Err::<Vec<BedRoute>, Render714Error>(e),
        },
{
    if metadata.len() != bed_sources {
        return Err(
            Render714Error::BedChannelCountMismatch { expected: metadata.len(), provided: bed_sources },
        );
    }
    let mut routes: Vec<BedRoute> = Vec::new();
    let mut i: usize = 0;
    while i < metadata.len()
        invariant
            i <= metadata@.len(),
            metadata@.len() == bed_sources,
            spec_routes_from(inputs@, metadata@, 0) == match spec_routes_from(inputs@, metadata@, i as int) {
                Ok(rest) => Ok(routes@ + rest),
                Err(e) => Err(e),
            },
        decreases metadata@.len() - i,
    {
        let channel = metadata[i];
        let input_index = match find_channel(inputs, channel) {
            Some(k) => k,
            None => {
                return Err(
                    Render714Error::BedChannelCountMismatch {
                        expected: count_channel(metadata, channel),
                        provided: count_channel(inputs, channel),
                    },
                );
            },
        };
        let output_index = match map_bed_channel_to_714(channel) {
            Some(o) => o,
            None => {
                return Err(Render714Error::UnsupportedBedChannel(channel));
            },
        };
        let route = BedRoute {
            input_index,
            output_index,
            lfe_send: channel == BedChannel::LowFrequencyEffects,
        };
        let ghost before = routes@;
        routes.push(route);
        proof {
            match spec_routes_from(inputs@, metadata@, i + 1) {
                Ok(rest) => {
                    assert(before + (seq![route] + rest) =~= routes@ + rest);
                },
                Err(e) => {},
            }
        }
        i += 1;
    }
    assert(routes@ + Seq::<BedRoute>::empty() =~= routes@);
    Ok(routes)
}

} // verus!
