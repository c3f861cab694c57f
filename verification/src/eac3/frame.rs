//! Decoded core audio, the merging of dependent channels into it, and its
//! alignment with rebuilt objects. `S` is the type of a sample.

use crate::eac3::qmf::QMF_RECONSTRUCTION_DELAY;
use crate::eac3::types::BedChannel;
use vstd::prelude::*;

verus! {

/// How much later than the core an object channel arrives, in samples.
///
/// The objects are rebuilt in the QMF domain; the core never enters that filter
/// bank, so the objects trail it by exactly the bank's own delay.
pub const JOC_LATENCY_SAMPLES: usize = QMF_RECONSTRUCTION_DELAY;

/// Decoded core channels of one access unit.
#[derive(Debug)]
pub struct CorePcmFrame<S> {
    pub sample_rate: u32,
    pub fullband_channel_order: Vec<BedChannel>,
    pub fullband_channels: Vec<Vec<S>>,
    pub lfe_channel: Option<Vec<S>>,
}

/// What a core frame holds.
#[verifier::ext_equal]
pub struct CoreModel<S> {
    pub sample_rate: u32,
    pub order: Seq<BedChannel>,
    pub channels: Seq<Seq<S>>,
    pub lfe: Option<Seq<S>>,
}

/// The samples of each channel.
pub open spec fn channel_samples<S>(channels: Seq<Vec<S>>) -> Seq<Seq<S>> {
    Seq::new(channels.len(), |channel: int| channels[channel]@)
}

/// The samples of an optional channel.
pub open spec fn optional_samples<S>(channel: Option<Vec<S>>) -> Option<Seq<S>> {
    match channel {
        Some(samples) => Some(samples@),
        None => None,
    }
}

impl<S> View for CorePcmFrame<S> {
    type V = CoreModel<S>;

    open spec fn view(&self) -> CoreModel<S> {
        CoreModel {
            sample_rate: self.sample_rate,
            order: self.fullband_channel_order@,
            channels: channel_samples(self.fullband_channels@),
            lfe: optional_samples(self.lfe_channel),
        }
    }
}

/// Number of samples of each channel: those of the first one, or of the LFE.
pub open spec fn samples_of<S>(core: CoreModel<S>) -> nat {
    if core.channels.len() > 0 {
        core.channels[0].len()
    } else if core.lfe is Some {
        core.lfe->0.len()
    } else {
        0
    }
}

impl<S> CorePcmFrame<S> {
    /// Number of samples carried by each channel in this frame.
    pub fn samples_per_channel(&self) -> (count: usize)
        ensures
            count == samples_of(self@),
    {
        if self.fullband_channels.len() > 0 {
            self.fullband_channels[0].len()
        } else {
            match self.lfe_channel.as_ref() {
                Some(lfe) => lfe.len(),
                None => 0,
            }
        }
    }

    /// Total channel count including the optional LFE channel.
    pub fn total_channels(&self) -> (count: usize)
        requires
            self.fullband_channels@.len() < usize::MAX,
        ensures
            count == self.fullband_channels@.len() + if self.lfe_channel is Some {
                1int
            } else {
                0int
            },
    {
        if self.lfe_channel.is_some() {
            self.fullband_channels.len() + 1
        } else {
            self.fullband_channels.len()
        }
    }
}

/// A copy of samples.
pub fn copied<S: Copy>(samples: &Vec<S>) -> (copy: Vec<S>)
    ensures
        copy@ == samples@,
{
    let mut copy: Vec<S> = Vec::new();
    let mut index: usize = 0;
    while index < samples.len()
        invariant
            index <= samples@.len(),
            copy@ == samples@.take(index as int),
        decreases samples.len() - index,
    {
        copy.push(samples[index]);
        assert(copy@ =~= samples@.take(index + 1));
        index = index + 1;
    }
    assert(copy@ =~= samples@);
    copy
}

/// A copy of channels.
fn copied_channels<S: Copy>(channels: &Vec<Vec<S>>) -> (copy: Vec<Vec<S>>)
    ensures
        channel_samples(copy@) == channel_samples(channels@),
{
    let mut copy: Vec<Vec<S>> = Vec::new();
    let mut index: usize = 0;
    while index < channels.len()
        invariant
            index <= channels@.len(),
            copy@.len() == index,
            forall|seen: int| 0 <= seen < index ==> (#[trigger] copy@[seen])@ == channels@[seen]@,
        decreases channels.len() - index,
    {
        copy.push(copied(&channels[index]));
        index = index + 1;
    }
    assert(channel_samples(copy@) =~= channel_samples(channels@));
    copy
}

/// The channels that bit `bit` of a channel map stands for, where it is set.
pub open spec fn mapped(chanmap: u16, bit: u16, channels: Seq<BedChannel>) -> Seq<BedChannel> {
    if chanmap & bit != 0 {
        channels
    } else {
        Seq::empty()
    }
}

/// The channels of a dependent substream's channel map, in coded order: from
/// the most significant bit down, a pair as left and right.
pub open spec fn chanmap_positions(chanmap: u16) -> Seq<BedChannel> {
    mapped(chanmap, 0x8000, seq![BedChannel::FrontLeft]) + mapped(
        chanmap,
        0x4000,
        seq![BedChannel::Center],
    ) + mapped(chanmap, 0x2000, seq![BedChannel::FrontRight]) + mapped(
        chanmap,
        0x1000,
        seq![BedChannel::SurroundLeft],
    ) + mapped(chanmap, 0x0800, seq![BedChannel::SurroundRight]) + mapped(
        chanmap,
        0x0200,
        seq![BedChannel::RearLeft, BedChannel::RearRight],
    ) + mapped(chanmap, 0x0100, seq![BedChannel::RearCenter]) + mapped(
        chanmap,
        0x0020,
        seq![BedChannel::WideLeft, BedChannel::WideRight],
    )
}

/// Appends the channels that bit `bit` of a channel map stands for, where it is
/// set.
fn push_mapped(
    positions: &mut Vec<BedChannel>,
    chanmap: u16,
    bit: u16,
    left: BedChannel,
    right: Option<BedChannel>,
)
    ensures
        final(positions)@ == old(positions)@ + mapped(
            chanmap,
            bit,
            match right {
                Some(right) => seq![left, right],
                None => seq![left],
            },
        ),
{
    if chanmap & bit != 0 {
        positions.push(left);
        if let Some(right) = right {
            positions.push(right);
        }
    }
    assert(positions@ =~= old(positions)@ + mapped(
        chanmap,
        bit,
        match right {
            Some(right) => seq![left, right],
            None => seq![left],
        },
    ));
}

/// Speaker positions that a dependent substream's channel map carries, in
/// coded-channel order. Only the bits that stand for a bed position count.
pub fn dependent_chanmap_positions(chanmap: u16) -> (positions: Vec<BedChannel>)
    ensures
        positions@ == chanmap_positions(chanmap),
{
    let mut positions: Vec<BedChannel> = Vec::new();
    push_mapped(&mut positions, chanmap, 0x8000, BedChannel::FrontLeft, None);
    assert(positions@ =~= mapped(chanmap, 0x8000, seq![BedChannel::FrontLeft]));
    push_mapped(&mut positions, chanmap, 0x4000, BedChannel::Center, None);
    push_mapped(&mut positions, chanmap, 0x2000, BedChannel::FrontRight, None);
    push_mapped(&mut positions, chanmap, 0x1000, BedChannel::SurroundLeft, None);
    push_mapped(&mut positions, chanmap, 0x0800, BedChannel::SurroundRight, None);
    push_mapped(
        &mut positions,
        chanmap,
        0x0200,
        BedChannel::RearLeft,
        Some(BedChannel::RearRight),
    );
    push_mapped(&mut positions, chanmap, 0x0100, BedChannel::RearCenter, None);
    push_mapped(
        &mut positions,
        chanmap,
        0x0020,
        BedChannel::WideLeft,
        Some(BedChannel::WideRight),
    );
    positions
}

/// The first place from `index` on at which `order` names `channel`.
pub open spec fn place_of(order: Seq<BedChannel>, channel: BedChannel, index: int) -> Option<int>
    decreases order.len() - index,
{
    if index >= order.len() {
        None
    } else if order[index] == channel {
        Some(index)
    } else {
        place_of(order, channel, index + 1)
    }
}

/// The first place at which `order` names `channel`.
pub fn find_channel(order: &Vec<BedChannel>, channel: BedChannel) -> (place: Option<usize>)
    ensures
        match place {
            Some(place) => place_of(order@, channel, 0) == Some(place as int) && place
                < order@.len(),
            None => place_of(order@, channel, 0) is None,
        },
{
    let mut index: usize = 0;
    while index < order.len()
        invariant
            index <= order@.len(),
            place_of(order@, channel, 0) == place_of(order@, channel, index as int),
        decreases order.len() - index,
    {
        if order[index] == channel {
            return Some(index);
        }
        index = index + 1;
    }
    None
}

/// `core` with the dependent's channels from `index` on laid over it: one that
/// the core has too is replaced, another one is appended.
pub open spec fn overlaid<S>(
    core: CoreModel<S>,
    positions: Seq<BedChannel>,
    channels: Seq<Seq<S>>,
    index: int,
) -> CoreModel<S>
    decreases positions.len() - index,
{
    if index >= positions.len() {
        core
    } else {
        let next = match place_of(core.order, positions[index], 0) {
            Some(place) => CoreModel {
                channels: core.channels.update(place, channels[index]),
                ..core
            },
            None => CoreModel {
                order: core.order.push(positions[index]),
                channels: core.channels.push(channels[index]),
                ..core
            },
        };
        overlaid(next, positions, channels, index + 1)
    }
}

/// Whether a dependent lines up with the core: its map names one position per
/// channel, and its channels are as long as the core's.
pub open spec fn lines_up<S>(
    core: CoreModel<S>,
    dependent: CoreModel<S>,
    channel_map: Option<u16>,
) -> bool {
    &&& channel_map is Some
    &&& chanmap_positions(channel_map->0).len() == dependent.channels.len()
    &&& samples_of(dependent) == samples_of(core)
}

/// A copy of a core frame.
pub fn copied_core<S: Copy>(core: &CorePcmFrame<S>) -> (copy: CorePcmFrame<S>)
    ensures
        copy@ == core@,
{
    let copy = CorePcmFrame {
        sample_rate: core.sample_rate,
        fullband_channel_order: copied(&core.fullband_channel_order),
        fullband_channels: copied_channels(&core.fullband_channels),
        lfe_channel: match core.lfe_channel.as_ref() {
            Some(lfe) => Some(copied(lfe)),
            None => None,
        },
    };
    assert(copy@ =~= core@);
    copy
}

/// What overlaying the decoded channels of a dependent onto a core gives.
pub open spec fn merges_to<S>(
    core: CoreModel<S>,
    dependent: CoreModel<S>,
    channel_map: Option<u16>,
    merged: Option<CorePcmFrame<S>>,
) -> bool {
    match merged {
        Some(bed) => {
            &&& lines_up(core, dependent, channel_map)
            &&& bed@ == overlaid(core, chanmap_positions(channel_map->0), dependent.channels, 0)
        },
        None => !lines_up(core, dependent, channel_map),
    }
}

/// Overlays the channels of a decoded dependent substream onto its core,
/// placing them by the dependent's channel map. Returns `None` when the
/// dependent does not line up.
pub fn overlay_dependent<S: Copy>(
    core: &CorePcmFrame<S>,
    dependent: &CorePcmFrame<S>,
    dependent_channel_map: Option<u16>,
) -> (merged: Option<CorePcmFrame<S>>)
    requires
        lines_up(core@, dependent@, dependent_channel_map) ==> core.fullband_channel_order@.len()
            <= core.fullband_channels@.len(),
    ensures
        merges_to(core@, dependent@, dependent_channel_map, merged),
{
    let positions: Vec<BedChannel> = match dependent_channel_map {
        Some(chanmap) => dependent_chanmap_positions(chanmap),
        None => {
            return None;
        },
    };
    if positions.len() != dependent.fullband_channels.len() || dependent.samples_per_channel()
        != core.samples_per_channel() {
        return None;
    }
    let mut bed: CorePcmFrame<S> = copied_core(core);
    assert(bed.fullband_channel_order@.len() == core@.order.len());
    assert(bed@.channels.len() == core@.channels.len());
    let mut index: usize = 0;
    while index < positions.len()
        invariant
            index <= positions@.len(),
            positions@.len() == dependent.fullband_channels@.len(),
            bed.fullband_channel_order@.len() <= bed.fullband_channels@.len(),
            overlaid(core@, positions@, dependent@.channels, 0) == overlaid(
                bed@,
                positions@,
                dependent@.channels,
                index as int,
            ),
        decreases positions.len() - index,
    {
        let ghost before = bed@;
        let position: BedChannel = positions[index];
        let channel: Vec<S> = copied(&dependent.fullband_channels[index]);
        match find_channel(&bed.fullband_channel_order, position) {
            Some(place) => {
                bed.fullband_channels[place] = channel;
                assert(bed@.channels =~= before.channels.update(
                    place as int,
                    dependent@.channels[index as int],
                ));
            },
            None => {
                bed.fullband_channel_order.push(position);
                bed.fullband_channels.push(channel);
                assert(bed@.channels =~= before.channels.push(dependent@.channels[index as int]));
            },
        }
        index = index + 1;
    }
    Some(bed)
}

/// Laying channels over a core keeps its sample rate and its LFE, and leaves a
/// channel at a position that the dependent does not name as it was.
pub proof fn overlay_keeps_other_channels<S>(
    core: CoreModel<S>,
    positions: Seq<BedChannel>,
    channels: Seq<Seq<S>>,
    index: int,
    place: int,
)
    requires
        0 <= index,
        positions.len() == channels.len(),
        core.order.len() == core.channels.len(),
        0 <= place < core.order.len(),
        forall|later: int| index <= later < positions.len() ==> positions[later] != core.order[place],
    ensures
        ({
            let bed = overlaid(core, positions, channels, index);
            &&& bed.sample_rate == core.sample_rate
            &&& bed.lfe == core.lfe
            &&& bed.order.len() == bed.channels.len()
            &&& bed.order.len() >= core.order.len()
            &&& bed.order[place] == core.order[place]
            &&& bed.channels[place] == core.channels[place]
        }),
    decreases positions.len() - index,
{
    if index < positions.len() {
        lemma_place(core.order, positions[index], 0);
        let next = match place_of(core.order, positions[index], 0) {
            Some(found) => CoreModel {
                channels: core.channels.update(found, channels[index]),
                ..core
            },
            None => CoreModel {
                order: core.order.push(positions[index]),
                channels: core.channels.push(channels[index]),
                ..core
            },
        };
        overlay_keeps_other_channels(next, positions, channels, index + 1, place);
    }
}

/// A place that is found names the channel, and none before it does.
pub proof fn lemma_place(order: Seq<BedChannel>, channel: BedChannel, index: int)
    requires
        0 <= index,
    ensures
        match place_of(order, channel, index) {
            Some(place) => index <= place < order.len() && order[place] == channel,
            None => forall|place: int| index <= place < order.len() ==> order[place] != channel,
        },
    decreases order.len() - index,
{
    if index < order.len() && order[index] != channel {
        lemma_place(order, channel, index + 1);
    }
}

/// Silence as long as the delay.
pub open spec fn silent_tail<S>(silence: S) -> Seq<S> {
    Seq::new(JOC_LATENCY_SAMPLES as nat, |index: int| silence)
}

/// The tail that a delay starts with: the one it has, or silence.
pub open spec fn tail_or_silence<S>(tail: Seq<S>, silence: S) -> Seq<S> {
    if tail.len() == JOC_LATENCY_SAMPLES {
        tail
    } else {
        silent_tail(silence)
    }
}

/// `channel` delayed behind `tail`.
pub open spec fn delayed_samples<S>(tail: Seq<S>, channel: Seq<S>) -> Seq<S> {
    (tail + channel).take(channel.len() as int)
}

/// The tail that is carried on once `channel` was delayed behind `tail`.
pub open spec fn carried_tail<S>(tail: Seq<S>, channel: Seq<S>) -> Seq<S> {
    (tail + channel).skip(channel.len() as int)
}

/// Delays one channel, carrying the samples that fall off the end into `tail`
/// for the next frame.
fn delay_channel<S: Copy>(channel: &Vec<S>, tail: &mut Vec<S>, silence: S) -> (delayed: Vec<S>)
    ensures
        delayed@ == delayed_samples(tail_or_silence(old(tail)@, silence), channel@),
        final(tail)@ == carried_tail(tail_or_silence(old(tail)@, silence), channel@),
        final(tail)@.len() == JOC_LATENCY_SAMPLES,
{
    if tail.len() != JOC_LATENCY_SAMPLES {
        let mut silent: Vec<S> = Vec::new();
        while silent.len() < JOC_LATENCY_SAMPLES
            invariant
                silent@.len() <= JOC_LATENCY_SAMPLES,
                forall|index: int| 0 <= index < silent@.len() ==> silent@[index] == silence,
            decreases JOC_LATENCY_SAMPLES - silent@.len(),
        {
            silent.push(silence);
        }
        assert(silent@ =~= silent_tail(silence));
        *tail = silent;
    }
    let ghost start = tail@;
    assert(start == tail_or_silence(old(tail)@, silence));
    let ghost joined = start + channel@;
    let count: usize = channel.len();
    let mut delayed: Vec<S> = Vec::new();
    let mut index: usize = 0;
    while index < count
        invariant
            index <= count,
            count == channel@.len(),
            start == tail@,
            start.len() == JOC_LATENCY_SAMPLES,
            joined == start + channel@,
            delayed@ == joined.take(index as int),
        decreases count - index,
    {
        if index < JOC_LATENCY_SAMPLES {
            delayed.push(tail[index]);
        } else {
            delayed.push(channel[index - JOC_LATENCY_SAMPLES]);
        }
        assert(delayed@ =~= joined.take(index + 1));
        index = index + 1;
    }
    let mut carried: Vec<S> = Vec::new();
    let mut place: usize = 0;
    while place < JOC_LATENCY_SAMPLES
        invariant
            place <= JOC_LATENCY_SAMPLES,
            count == channel@.len(),
            start == tail@,
            start.len() == JOC_LATENCY_SAMPLES,
            joined == start + channel@,
            carried@ == joined.skip(count as int).take(place as int),
        decreases JOC_LATENCY_SAMPLES - place,
    {
        if count < JOC_LATENCY_SAMPLES - place {
            carried.push(tail[count + place]);
        } else {
            carried.push(channel[count - (JOC_LATENCY_SAMPLES - place)]);
        }
        assert(carried@ =~= joined.skip(count as int).take(place + 1));
        place = place + 1;
    }
    assert(carried@ =~= joined.skip(count as int));
    *tail = carried;
    delayed
}

/// Delaying is seamless: two frames in turn come out as the two of them in one,
/// and carry the same tail on.
pub proof fn delay_is_seamless<S>(tail: Seq<S>, first: Seq<S>, second: Seq<S>)
    ensures
        delayed_samples(tail, first) + delayed_samples(carried_tail(tail, first), second)
            == delayed_samples(tail, first + second),
        carried_tail(carried_tail(tail, first), second) == carried_tail(tail, first + second),
{
    assert(delayed_samples(tail, first) + delayed_samples(carried_tail(tail, first), second)
        =~= delayed_samples(tail, first + second));
    assert(carried_tail(carried_tail(tail, first), second) =~= carried_tail(
        tail,
        first + second,
    ));
}

/// The core is held back by exactly the latency: after as many samples of the
/// tail, every sample comes out in its place.
pub proof fn delay_is_exact<S>(silence: S, channel: Seq<S>, index: int)
    requires
        0 <= index < channel.len(),
    ensures
        index < JOC_LATENCY_SAMPLES ==> delayed_samples(silent_tail(silence), channel)[index]
            == silence,
        index >= JOC_LATENCY_SAMPLES ==> delayed_samples(silent_tail(silence), channel)[index]
            == channel[index - JOC_LATENCY_SAMPLES],
{
}

/// Holds the core back by [`JOC_LATENCY_SAMPLES`], so that everything in an
/// object frame sits on one clock.
///
/// Each channel keeps the tail of the previous frame, which becomes the head of
/// the next one. The tails are addressed by position, so they only mean anything
/// while the core keeps the same shape; the remembered layout says whether it
/// does.
#[derive(Debug)]
pub struct CoreAlignmentDelay<S> {
    pub silence: S,
    pub sample_rate: Option<u32>,
    pub fullband_channel_order: Vec<BedChannel>,
    pub lfe_present: bool,
    pub fullband_tails: Vec<Vec<S>>,
    pub lfe_tail: Vec<S>,
}

/// What a delay holds.
#[verifier::ext_equal]
pub struct DelayModel<S> {
    pub silence: S,
    pub sample_rate: Option<u32>,
    pub order: Seq<BedChannel>,
    pub lfe_present: bool,
    pub tails: Seq<Seq<S>>,
    pub lfe_tail: Seq<S>,
}

impl<S> View for CoreAlignmentDelay<S> {
    type V = DelayModel<S>;

    open spec fn view(&self) -> DelayModel<S> {
        DelayModel {
            silence: self.silence,
            sample_rate: self.sample_rate,
            order: self.fullband_channel_order@,
            lfe_present: self.lfe_present,
            tails: channel_samples(self.fullband_tails@),
            lfe_tail: self.lfe_tail@,
        }
    }
}

/// A delay that holds nothing.
pub open spec fn empty_delay<S>(silence: S) -> DelayModel<S> {
    DelayModel {
        silence,
        sample_rate: None,
        order: Seq::empty(),
        lfe_present: false,
        tails: Seq::empty(),
        lfe_tail: Seq::empty(),
    }
}

/// Whether the tails of a delay belong to the layout that `core` is in.
pub open spec fn delay_fits<S>(delay: DelayModel<S>, core: CoreModel<S>) -> bool {
    &&& delay.sample_rate == Some(core.sample_rate)
    &&& delay.order == core.order
    &&& delay.lfe_present == core.lfe is Some
}

/// The tails that `core` is delayed behind: silence where they are of another
/// layout.
pub open spec fn tail_for<S>(delay: DelayModel<S>, core: CoreModel<S>, channel: int) -> Seq<S> {
    if delay_fits(delay, core) && channel < delay.tails.len() {
        tail_or_silence(delay.tails[channel], delay.silence)
    } else {
        silent_tail(delay.silence)
    }
}

/// The LFE tail that `core` is delayed behind.
pub open spec fn lfe_tail_for<S>(delay: DelayModel<S>, core: CoreModel<S>) -> Seq<S> {
    if delay_fits(delay, core) {
        tail_or_silence(delay.lfe_tail, delay.silence)
    } else {
        silent_tail(delay.silence)
    }
}

/// `core` as it comes out of the delay.
pub open spec fn delayed_core<S>(delay: DelayModel<S>, core: CoreModel<S>) -> CoreModel<S> {
    CoreModel {
        sample_rate: core.sample_rate,
        order: core.order,
        channels: Seq::new(
            core.channels.len(),
            |channel: int|
                delayed_samples(tail_for(delay, core, channel), core.channels[channel]),
        ),
        lfe: match core.lfe {
            Some(lfe) => Some(delayed_samples(lfe_tail_for(delay, core), lfe)),
            None => None,
        },
    }
}

/// What the delay holds once `core` has gone through it.
pub open spec fn delay_after<S>(delay: DelayModel<S>, core: CoreModel<S>) -> DelayModel<S> {
    DelayModel {
        silence: delay.silence,
        sample_rate: Some(core.sample_rate),
        order: core.order,
        lfe_present: core.lfe is Some,
        tails: Seq::new(
            core.channels.len(),
            |channel: int| carried_tail(tail_for(delay, core, channel), core.channels[channel]),
        ),
        lfe_tail: match core.lfe {
            Some(lfe) => carried_tail(lfe_tail_for(delay, core), lfe),
            None => if delay_fits(delay, core) {
                delay.lfe_tail
            } else {
                Seq::empty()
            },
        },
    }
}

/// Whether two channel orders are the same.
fn same_order(left: &Vec<BedChannel>, right: &Vec<BedChannel>) -> (same: bool)
    ensures
        same == (left@ == right@),
{
    if left.len() != right.len() {
        return false;
    }
    let mut index: usize = 0;
    while index < left.len()
        invariant
            left@.len() == right@.len(),
            index <= left@.len(),
            forall|seen: int| 0 <= seen < index ==> left@[seen] == right@[seen],
        decreases left.len() - index,
    {
        if left[index] != right[index] {
            return false;
        }
        index = index + 1;
    }
    assert(left@ =~= right@);
    true
}

impl<S: Copy> CoreAlignmentDelay<S> {
    /// A delay that holds nothing.
    pub fn new(silence: S) -> (delay: Self)
        ensures
            delay@ == empty_delay(silence),
    {
        let delay = CoreAlignmentDelay {
            silence,
            sample_rate: None,
            fullband_channel_order: Vec::new(),
            lfe_present: false,
            fullband_tails: Vec::new(),
            lfe_tail: Vec::new(),
        };
        assert(delay@ =~= empty_delay(silence));
        delay
    }

    /// Forgets everything that is carried.
    pub fn reset(&mut self)
        ensures
            final(self)@ == empty_delay(old(self).silence),
    {
        *self = CoreAlignmentDelay::new(self.silence);
    }

    /// Whether the tails on hand belong to the layout that `core` is in.
    pub fn belongs_to(&self, core: &CorePcmFrame<S>) -> (belongs: bool)
        ensures
            belongs == delay_fits(self@, core@),
    {
        let same_rate: bool = match self.sample_rate {
            Some(sample_rate) => sample_rate == core.sample_rate,
            None => false,
        };
        same_rate && same_order(&self.fullband_channel_order, &core.fullband_channel_order)
            && self.lfe_present == core.lfe_channel.is_some()
    }

    /// Returns `core` shifted later by the latency of the objects.
    ///
    /// The result is a new frame: the caller still needs the undelayed one,
    /// which is what the objects are rebuilt from.
    pub fn delayed(&mut self, core: &CorePcmFrame<S>) -> (delayed: CorePcmFrame<S>)
        ensures
            delayed@ == delayed_core(old(self)@, core@),
            final(self)@ == delay_after(old(self)@, core@),
    {
        let ghost start = self@;
        let fits: bool = self.belongs_to(core);
        if !fits {
            self.reset();
            self.sample_rate = Some(core.sample_rate);
            self.fullband_channel_order = copied(&core.fullband_channel_order);
            self.lfe_present = core.lfe_channel.is_some();
        }
        let silence: S = self.silence;
        let mut channels: Vec<Vec<S>> = Vec::new();
        let mut tails: Vec<Vec<S>> = Vec::new();
        let mut channel: usize = 0;
        let ghost held = self.fullband_tails@;
        assert(fits ==> channel_samples(held) == start.tails);
        assert(!fits ==> channel_samples(held).len() == 0);
        while channel < core.fullband_channels.len()
            invariant
                channel <= core.fullband_channels@.len(),
                channels@.len() == channel,
                tails@.len() == channel,
                silence == start.silence,
                fits == delay_fits(start, core@),
                held == self.fullband_tails@,
                fits ==> channel_samples(held) == start.tails,
                !fits ==> held.len() == 0,
                forall|seen: int|
                    0 <= seen < channel ==> (#[trigger] channels@[seen])@ == delayed_samples(
                        tail_for(start, core@, seen),
                        core@.channels[seen],
                    ),
                forall|seen: int|
                    0 <= seen < channel ==> (#[trigger] tails@[seen])@ == carried_tail(
                        tail_for(start, core@, seen),
                        core@.channels[seen],
                    ),
            decreases core.fullband_channels.len() - channel,
        {
            let mut tail: Vec<S> = if channel < self.fullband_tails.len() {
                copied(&self.fullband_tails[channel])
            } else {
                Vec::new()
            };
            proof {
                if fits && channel < held.len() {
                    assert(channel_samples(held)[channel as int] == tail@);
                }
                assert(tail_or_silence(tail@, silence) == tail_for(start, core@, channel as int));
            }
            channels.push(delay_channel(&core.fullband_channels[channel], &mut tail, silence));
            tails.push(tail);
            channel = channel + 1;
        }
        self.fullband_tails = tails;
        let lfe_channel: Option<Vec<S>> = match core.lfe_channel.as_ref() {
            Some(lfe) => Some(delay_channel(lfe, &mut self.lfe_tail, silence)),
            None => None,
        };
        let delayed = CorePcmFrame {
            sample_rate: core.sample_rate,
            fullband_channel_order: copied(&core.fullband_channel_order),
            fullband_channels: channels,
            lfe_channel,
        };
        assert(delayed@ =~= delayed_core(start, core@));
        assert(self@ =~= delay_after(start, core@));
        delayed
    }
}

/// A core of another layout starts from silence: its delay holds nothing of
/// what was carried before.
pub proof fn other_layouts_start_from_silence<S>(delay: DelayModel<S>, core: CoreModel<S>)
    requires
        !delay_fits(delay, core),
    ensures
        delayed_core(delay, core) == delayed_core(empty_delay(delay.silence), core),
        delay_after(delay, core) == delay_after(empty_delay(delay.silence), core),
{
    let empty = empty_delay(delay.silence);
    assert(delayed_core(delay, core) =~= delayed_core(empty, core));
    assert(delay_after(delay, core) =~= delay_after(empty, core));
}

/// What a delay holds once the first `count` cores of a run have gone through
/// it.
pub open spec fn delay_run<S>(
    delay: DelayModel<S>,
    cores: Seq<CoreModel<S>>,
    count: int,
) -> DelayModel<S>
    decreases count,
{
    if count <= 0 {
        delay
    } else {
        delay_after(delay_run(delay, cores, count - 1), cores[count - 1])
    }
}

/// The samples of a channel of a core; those of the LFE are channel -1.
pub open spec fn channel_of<S>(core: CoreModel<S>, channel: int) -> Seq<S> {
    if channel < 0 {
        match core.lfe {
            Some(lfe) => lfe,
            None => Seq::empty(),
        }
    } else {
        core.channels[channel]
    }
}

/// What goes into a channel over the first `count` cores of a run.
pub open spec fn channel_in<S>(cores: Seq<CoreModel<S>>, channel: int, count: int) -> Seq<S>
    decreases count,
{
    if count <= 0 {
        Seq::empty()
    } else {
        channel_in(cores, channel, count - 1) + channel_of(cores[count - 1], channel)
    }
}

/// What comes out of a channel over the first `count` cores of a run.
pub open spec fn channel_out<S>(
    delay: DelayModel<S>,
    cores: Seq<CoreModel<S>>,
    channel: int,
    count: int,
) -> Seq<S>
    decreases count,
{
    if count <= 0 {
        Seq::empty()
    } else {
        channel_out(delay, cores, channel, count - 1) + channel_of(
            delayed_core(delay_run(delay, cores, count - 1), cores[count - 1]),
            channel,
        )
    }
}

/// Every core of a run has the layout of the first.
pub open spec fn same_layout<S>(cores: Seq<CoreModel<S>>) -> bool {
    forall|index: int|
        0 <= index < cores.len() ==> {
            &&& (#[trigger] cores[index]).sample_rate == cores[0].sample_rate
            &&& cores[index].order == cores[0].order
            &&& cores[index].channels.len() == cores[0].channels.len()
            &&& cores[index].lfe is Some == cores[0].lfe is Some
        }
}

/// Over any run of cores of one layout, every channel and the LFE (channel -1)
/// come out as they went in, behind the same silence: the run is delayed as one
/// frame of all its samples would be.
pub proof fn runs_are_delayed_as_one<S>(
    silence: S,
    cores: Seq<CoreModel<S>>,
    channel: int,
    count: int,
)
    requires
        same_layout(cores),
        0 <= count <= cores.len(),
        cores.len() > 0,
        -1 <= channel < cores[0].channels.len(),
        channel == -1 ==> cores[0].lfe is Some,
    ensures
        channel_out(empty_delay(silence), cores, channel, count) == delayed_samples(
            silent_tail(silence),
            channel_in(cores, channel, count),
        ),
        count > 0 ==> {
            let delay = delay_run(empty_delay(silence), cores, count);
            let tail = if channel < 0 {
                delay.lfe_tail
            } else {
                delay.tails[channel]
            };
            &&& delay_fits(delay, cores[0])
            &&& delay.silence == silence
            &&& delay.tails.len() == cores[0].channels.len()
            &&& tail == carried_tail(silent_tail(silence), channel_in(cores, channel, count))
        },
    decreases count,
{
    let silent = silent_tail(silence);
    if count == 0 {
        assert(delayed_samples(silent, Seq::<S>::empty()) =~= Seq::<S>::empty());
    } else {
        runs_are_delayed_as_one(silence, cores, channel, count - 1);
        let before = delay_run(empty_delay(silence), cores, count - 1);
        let core = cores[count - 1];
        let earlier = channel_in(cores, channel, count - 1);
        let now = channel_of(core, channel);
        delay_is_seamless(silent, earlier, now);
        if count == 1 {
            assert(earlier =~= Seq::<S>::empty());
            assert(carried_tail(silent, earlier) =~= silent);
            assert(!delay_fits(before, core));
        } else {
            assert(carried_tail(silent, earlier).len() == JOC_LATENCY_SAMPLES);
        }
        let tail = if channel < 0 {
            lfe_tail_for(before, core)
        } else {
            tail_for(before, core, channel)
        };
        assert(tail == carried_tail(silent, earlier));
    }
}

} // verus!
