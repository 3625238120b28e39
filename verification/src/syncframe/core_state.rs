//! What core PCM decoding keeps between access units: the bed layout of the channel mode and
//! the audio-block syntax state of the current channel configuration.

use crate::renderer::BedChannel;
use crate::syncframe::block::{spec_new_state, BlockSyntaxState};
use crate::syncframe::header::{spec_ac3_channels, spec_front_channels, spec_surround_channels};
use crate::syncframe::types::ParseError;
use vstd::prelude::*;

verus! {

/// Bed channels of the full-bandwidth channels of `channel_mode`, in coded order; `None` for
/// the channel modes without a bed mapping (dual mono, 2/1 and 2/2 with a rear center).
pub open spec fn spec_fullband_channel_order(channel_mode: u8) -> Option<Seq<BedChannel>> {
    match channel_mode {
        1 => Some(seq![BedChannel::Center]),
        2 => Some(seq![BedChannel::FrontLeft, BedChannel::FrontRight]),
        3 => Some(seq![BedChannel::FrontLeft, BedChannel::Center, BedChannel::FrontRight]),
        6 => Some(
            seq![
                BedChannel::FrontLeft,
                BedChannel::FrontRight,
                BedChannel::SurroundLeft,
                BedChannel::SurroundRight,
            ],
        ),
        7 => Some(
            seq![
                BedChannel::FrontLeft,
                BedChannel::Center,
                BedChannel::FrontRight,
                BedChannel::SurroundLeft,
                BedChannel::SurroundRight,
            ],
        ),
        _ => None,
    }
}

/// Position of a bed channel in E-AC-3 coded channel order: left, centre, right, left
/// surround, right surround; other channels come after all of them.
pub open spec fn coded_rank(channel: BedChannel) -> int {
    match channel {
        BedChannel::FrontLeft => 0,
        BedChannel::Center => 1,
        BedChannel::FrontRight => 2,
        BedChannel::SurroundLeft => 3,
        BedChannel::SurroundRight => 4,
        _ => 5,
    }
}

/// The bed order of a channel mode lists its full-bandwidth channels in coded order (left
/// before centre before right before the surrounds, each once): as many as the mode has front
/// and surround channels, the centre exactly in the odd modes, left and right from mode 2 on,
/// the surrounds in modes 6 and 7. Modes 1, 2, 3, 6 and 7 have such an order.
pub proof fn lemma_fullband_order_is_coded_order(channel_mode: u8)
    ensures
        spec_fullband_channel_order(channel_mode) is Some <==> (channel_mode == 1 || channel_mode
            == 2 || channel_mode == 3 || channel_mode == 6 || channel_mode == 7),
        spec_fullband_channel_order(channel_mode) matches Some(order) ==> {
            &&& order.len() == spec_ac3_channels(channel_mode as nat)
            &&& order.len() == spec_front_channels(channel_mode as nat) + spec_surround_channels(
                channel_mode as nat,
            )
            &&& forall|i: int, j: int|
                0 <= i < j < order.len() ==> coded_rank(#[trigger] order[i]) < coded_rank(
                    #[trigger] order[j],
                )
            &&& forall|i: int| 0 <= i < order.len() ==> coded_rank(#[trigger] order[i]) < 5
            &&& order.contains(BedChannel::Center) <==> channel_mode % 2 == 1
            &&& order.contains(BedChannel::FrontLeft) <==> channel_mode >= 2
            &&& order.contains(BedChannel::FrontRight) <==> channel_mode >= 2
            &&& order.contains(BedChannel::SurroundLeft) <==> channel_mode >= 6
            &&& order.contains(BedChannel::SurroundRight) <==> channel_mode >= 6
        },
{
    if let Some(order) = spec_fullband_channel_order(channel_mode) {
        assert(order.len() > 0 ==> order.contains(order[0]));
        assert(order.len() > 1 ==> order.contains(order[1]));
        assert(order.len() > 2 ==> order.contains(order[2]));
        assert(order.len() > 3 ==> order.contains(order[3]));
        assert(order.len() > 4 ==> order.contains(order[4]));
    }
}

/// Bed channels of the full-bandwidth channels of `channel_mode`, in coded order. Channel
/// modes 0, 4 and 5 have no bed mapping yet; codes above 7 are not channel modes.
pub fn fullband_channel_order(channel_mode: u8) -> (r: Result<Vec<BedChannel>, ParseError>)
    ensures
        match spec_fullband_channel_order(channel_mode) {
            Some(order) => r matches Ok(v) && v@ == order,
            None => r == if channel_mode <= 7 {
                Err::<Vec<BedChannel>, ParseError>(ParseError::UnsupportedFeature("channel-mode-pcm"))
            } else {
                Err::<Vec<BedChannel>, ParseError>(ParseError::InvalidHeader("channel-mode"))
            },
        },
{
    match channel_mode {
        1 => Ok(vec![BedChannel::Center]),
        2 => Ok(vec![BedChannel::FrontLeft, BedChannel::FrontRight]),
        3 => Ok(vec![BedChannel::FrontLeft, BedChannel::Center, BedChannel::FrontRight]),
        6 => Ok(
            vec![
                BedChannel::FrontLeft,
                BedChannel::FrontRight,
                BedChannel::SurroundLeft,
                BedChannel::SurroundRight,
            ],
        ),
        7 => Ok(
            vec![
                BedChannel::FrontLeft,
                BedChannel::Center,
                BedChannel::FrontRight,
                BedChannel::SurroundLeft,
                BedChannel::SurroundRight,
            ],
        ),
        0 | 4 | 5 => Err(ParseError::UnsupportedFeature("channel-mode-pcm")),
        _ => Err(ParseError::InvalidHeader("channel-mode")),
    }
}

/// Cross-frame state of core decoding: the channel configuration it was set up for and the
/// audio-block syntax state that belongs to it.
pub struct CoreDecodeState {
    fullband_channels: usize,
    lfe_on: bool,
    sample_rate_index: Option<usize>,
    block_syntax: Option<BlockSyntaxState>,
}

impl CoreDecodeState {
    /// Number of full-bandwidth channels of the configuration.
    pub closed spec fn spec_fullband_channels(&self) -> usize {
        self.fullband_channels
    }

    /// Whether the configuration has an LFE channel.
    pub closed spec fn spec_lfe_on(&self) -> bool {
        self.lfe_on
    }

    /// Sample-rate index of the configuration, once there is one.
    pub closed spec fn spec_sample_rate_index(&self) -> Option<usize> {
        self.sample_rate_index
    }

    /// The block syntax state, once the state was configured.
    pub closed spec fn spec_block_syntax(&self) -> Option<BlockSyntaxState> {
        self.block_syntax
    }

    /// Whether the state holds nothing: no configuration and no block syntax state.
    pub open spec fn is_unconfigured(&self) -> bool {
        &&& self.spec_fullband_channels() == 0
        &&& !self.spec_lfe_on()
        &&& self.spec_sample_rate_index() is None
        &&& self.spec_block_syntax() is None
    }

    /// Whether a `reconfigure` with these arguments starts afresh: the configuration differs,
    /// or there is no block syntax state yet.
    pub open spec fn needs_reset(&self, fullband_channels: usize, lfe_on: bool, sample_rate_index: usize) -> bool {
        ||| self.spec_sample_rate_index() != Some(sample_rate_index)
        ||| self.spec_fullband_channels() != fullband_channels
        ||| self.spec_lfe_on() != lfe_on
        ||| self.spec_block_syntax() is None
    }

    /// A state with nothing configured.
    pub fn new() -> (s: Self)
        ensures
            s.is_unconfigured(),
    {
        CoreDecodeState {
            fullband_channels: 0,
            lfe_on: false,
            sample_rate_index: None,
            block_syntax: None,
        }
    }

    /// Forgets the configuration and the block syntax state.
    pub fn reset(&mut self)
        ensures
            final(self).is_unconfigured(),
    {
        self.fullband_channels = 0;
        self.lfe_on = false;
        self.sample_rate_index = None;
        self.block_syntax = None;
    }

    /// Sets the state up for `fullband_channels` full-bandwidth channels, `lfe_on` and
    /// `sample_rate_index`. A new configuration (or a first one) gets a fresh block syntax
    /// state; the same configuration keeps the state it has.
    pub fn reconfigure(&mut self, fullband_channels: usize, lfe_on: bool, sample_rate_index: usize)
        ensures
            final(self).spec_fullband_channels() == fullband_channels,
            final(self).spec_lfe_on() == lfe_on,
            final(self).spec_sample_rate_index() == Some(sample_rate_index),
            old(self).needs_reset(fullband_channels, lfe_on, sample_rate_index) ==> (final(self).spec_block_syntax() matches Some(b) && b@ == spec_new_state(fullband_channels as nat, lfe_on, sample_rate_index)),
            !old(self).needs_reset(fullband_channels, lfe_on, sample_rate_index) ==> final(self).spec_block_syntax() == old(self).spec_block_syntax(),
            !final(self).needs_reset(fullband_channels, lfe_on, sample_rate_index),
    {
        let needs_reset = match self.sample_rate_index {
            Some(index) => index != sample_rate_index,
            None => true,
        } || self.fullband_channels != fullband_channels || self.lfe_on != lfe_on
            || self.block_syntax.is_none();
        if needs_reset {
            self.fullband_channels = fullband_channels;
            self.lfe_on = lfe_on;
            self.sample_rate_index = Some(sample_rate_index);
            self.block_syntax = Some(BlockSyntaxState::new(fullband_channels, lfe_on, sample_rate_index));
        }
    }

    /// The block syntax state to decode audio blocks with; refused before any configuration.
    pub fn block_syntax_mut(&mut self) -> (r: Result<&mut BlockSyntaxState, ParseError>)
        ensures
            final(self).spec_fullband_channels() == old(self).spec_fullband_channels(),
            final(self).spec_lfe_on() == old(self).spec_lfe_on(),
            final(self).spec_sample_rate_index() == old(self).spec_sample_rate_index(),
            match old(self).spec_block_syntax() {
                Some(b) => r matches Ok(rb) && *rb == b && final(self).spec_block_syntax() == Some(*final(rb)),
                None => r == Err::<&mut BlockSyntaxState, ParseError>(ParseError::InvalidHeader("core-decode-state"))
                    && final(self).spec_block_syntax() is None,
            },
    {
        match &mut self.block_syntax {
            Some(block_syntax) => Ok(block_syntax),
            None => Err(ParseError::InvalidHeader("core-decode-state")),
        }
    }
}

} // verus!
