//! Laws of access units: what a unit is read and decoded to, when its objects
//! start cold, how late its core comes out, and how units are paired.

use crate::eac3::frame::{
    chanmap_positions, channel_in, channel_out, delay_after, empty_delay, lemma_place, merges_to,
    overlaid, place_of, runs_are_delayed_as_one, same_layout, samples_of, CoreModel, CorePcmFrame,
    DelayModel,
};
use crate::eac3::pcm::{
    core_pushed, core_taken, first_joc, gap_noted, history_cleared, joc_count, oamd_places,
    size_error, splices, unit_finished, unit_read, unit_started, AccessUnitInfo, CoreDecode,
    EmdfPayload, ObjectPcmDecoder, ObjectPcmPushResult, ObjectStart, PcmDecoder, PcmPushResult,
};
use crate::eac3::stream::{
    bed_sent, pair_bed, sent_first, unit_completed, unit_handled, unit_step, unsent_core,
    DecodedObjects, FrameMessage, PendingIndependent, StreamState, UnitClass, UnitHeader,
    UnitOutcome, UnitStep,
};
use crate::eac3::types::{downmix_channels, BedChannel, ParseError};
use crate::level::Level;
use vstd::prelude::*;

verus! {

/// A unit is accepted exactly where it has the size that it says; a shorter one
/// is truncated, a longer one has trailing data.
pub proof fn units_have_the_size_they_say(provided: nat, frame_size: usize)
    requires
        provided <= usize::MAX,
    ensures
        size_error(provided, frame_size) is None <==> provided == frame_size,
        provided < frame_size ==> size_error(provided, frame_size) == Some(
            ParseError::TruncatedFrame { expected: frame_size, available: provided as usize },
        ),
        provided > frame_size ==> size_error(provided, frame_size) == Some(
            ParseError::TrailingData { expected: frame_size, provided: provided as usize },
        ),
{
}

/// A unit that is accepted was read with the history that was there and decoded
/// with the history that reading left, whose own is kept; it gives what was read
/// and decoded, and is counted.
pub proof fn accepted_units_are_read_and_decoded_in_turn<S, G, O, H, F: Fn() -> H, I, D>(
    before: PcmDecoder<H, F>,
    after: PcmDecoder<H, F>,
    access_unit: &[u8],
    inspect: I,
    decode: D,
    push: PcmPushResult<S, G, O>,
) where
    I: FnOnce(&[u8], Level, H) -> (H, Result<AccessUnitInfo<G, O>, ParseError>),
    D: FnOnce(&[u8], &AccessUnitInfo<G, O>, H) -> (H, Result<CoreDecode<S>, ParseError>),

    requires
        core_pushed(before, after, access_unit, inspect, decode, Ok(push)),
    ensures
        push.frames_seen == before.frames_seen + 1,
        after.frames_seen == before.frames_seen + 1,
        access_unit@.len() == push.info.frame_size,
        after.debug_log_level == before.debug_log_level,
        exists|read: H, core: CoreDecode<S>|
            {
                &&& inspect.ensures(
                    (access_unit, before.debug_log_level, before.history),
                    (read, Ok(push.info)),
                )
                &&& #[trigger] decode.ensures(
                    (access_unit, &push.info, read),
                    (after.history, Ok(core)),
                )
                &&& push.pcm == core.pcm
                &&& after.spx_in_use == core.spx_in_use
                &&& after.chinspx == core.chinspx
            },
{
    let (read, inspected) = choose|read: H, inspected: Result<AccessUnitInfo<G, O>, ParseError>|
        {
            &&& #[trigger] inspect.ensures(
                (access_unit, before.debug_log_level, before.history),
                (read, inspected),
            )
            &&& match inspected {
                Err(_) => false,
                Ok(info) => size_error(access_unit@.len(), info.frame_size) is None && exists|
                    left: H,
                    decoded: Result<CoreDecode<S>, ParseError>,
                |
                    {
                        &&& #[trigger] decode.ensures((access_unit, &info, read), (left, decoded))
                        &&& decoded matches Ok(core) && {
                            &&& push.frames_seen == before.frames_seen + 1
                            &&& push.info == info
                            &&& push.pcm == core.pcm
                            &&& after.frames_seen == push.frames_seen
                            &&& after.history == left
                            &&& after.spx_in_use == core.spx_in_use
                            &&& after.chinspx == core.chinspx
                        }
                    },
            }
        };
    let info = inspected->Ok_0;
    let (left, decoded) = choose|left: H, decoded: Result<CoreDecode<S>, ParseError>|
        {
            &&& #[trigger] decode.ensures((access_unit, &info, read), (left, decoded))
            &&& decoded matches Ok(core) && {
                &&& push.info == info
                &&& push.pcm == core.pcm
                &&& after.history == left
                &&& after.spx_in_use == core.spx_in_use
                &&& after.chinspx == core.chinspx
            }
        };
    let core = decoded->Ok_0;
    assert(decode.ensures((access_unit, &push.info, read), (after.history, Ok(core))));
}

/// A payload continues the sequence exactly where its counter is the next one,
/// around at 1024, and no presentation without objects came between. The first
/// payload of a stream continues whatever it has.
pub proof fn sequences_go_on_by_one<S, H, F>(decoder: ObjectPcmDecoder<S, H, F>, counter: u16)
    requires
        counter < 1024,
        decoder.last_sequence matches Some(last) ==> last < 1024,
    ensures
        decoder.gap ==> splices(decoder, counter),
        !decoder.gap && decoder.last_sequence is None ==> !splices(decoder, counter),
        !decoder.gap ==> (decoder.last_sequence matches Some(last) ==> (!splices(decoder, counter)
            <==> counter == last + 1 || last == 1023 && counter == 0)),
{
}

/// The JOC payload of a unit is the first one of its payloads, and it has one
/// exactly where the payloads count one.
pub proof fn first_payloads_are_taken<G, O>(payloads: Seq<EmdfPayload<G, O>>, index: int)
    requires
        0 <= index <= payloads.len(),
    ensures
        match first_joc(payloads, index) {
            Some(place) => {
                &&& index <= place < payloads.len()
                &&& payloads[place].parsed is Joc
                &&& forall|before: int|
                    index <= before < place ==> !((#[trigger] payloads[before]).parsed is Joc)
            },
            None => forall|before: int|
                index <= before < payloads.len() ==> !((#[trigger] payloads[before]).parsed is Joc),
        },
        joc_count(payloads, index) > 0 <==> first_joc(payloads, index) is Some,
        joc_count(payloads, index) <= payloads.len() - index,
    decreases payloads.len() - index,
{
    if index < payloads.len() {
        first_payloads_are_taken(payloads, index + 1);
    }
}

/// The object metadata of a unit are all its payloads of that kind, in order.
pub proof fn object_metadata_are_listed_in_order<G, O>(
    payloads: Seq<EmdfPayload<G, O>>,
    index: int,
    place: int,
)
    requires
        0 <= index <= payloads.len(),
    ensures
        oamd_places(payloads, index).contains(place) <==> index <= place < payloads.len()
            && payloads[place].parsed is Oamd,
        forall|left: int|
            0 <= left < oamd_places(payloads, index).len() ==> #[trigger] oamd_places(
                payloads,
                index,
            )[left] >= index,
        forall|left: int, right: int|
            0 <= left < right < oamd_places(payloads, index).len() ==> (#[trigger] oamd_places(
                payloads,
                index,
            )[left]) < (#[trigger] oamd_places(payloads, index)[right]),
    decreases payloads.len() - index,
{
    if index < payloads.len() {
        object_metadata_are_listed_in_order(payloads, index + 1, place);
        let rest = oamd_places(payloads, index + 1);
        let all = oamd_places(payloads, index);
        if payloads[index].parsed is Oamd {
            assert(all == seq![index] + rest);
            if rest.contains(place) {
                let at = choose|at: int| 0 <= at < rest.len() && rest[at] == place;
                assert(all[at + 1] == place);
            }
            if all.contains(place) && place != index {
                let at = choose|at: int| 0 <= at < all.len() && all[at] == place;
                assert(rest[at - 1] == place);
            }
            if place == index {
                assert(all[0] == place);
            }
            assert forall|left: int, right: int| 0 <= left < right < all.len() implies (
            #[trigger] all[left]) < (#[trigger] all[right]) by {
                assert(all[right] == rest[right - 1]);
                if left > 0 {
                    assert(all[left] == rest[left - 1]);
                }
            }
        }
    }
}

/// A decoder without history has no counter, no core and no gap to go on from,
/// and neither matrices nor tails; the count of frames goes on.
pub proof fn cleared_decoders_hold_nothing<S: Copy, H, F: Fn() -> H>(
    before: ObjectPcmDecoder<S, H, F>,
    after: ObjectPcmDecoder<S, H, F>,
)
    requires
        history_cleared(before, after),
    ensures
        after.last_sequence is None,
        !after.gap,
        after.joc_input_core is None,
        after.joc_state.prev_matrix@.len() == 0,
        after.joc_state.forward_qmf@.len() == 0,
        after.joc_state.inverse_qmf@.len() == 0,
        after.joc_state.inverse_history@.len() == 0,
        after.core_delay.sample_rate is None,
        after.core_delay@.tails.len() == 0,
        after.core_delay@.lfe_tail.len() == 0,
        after.fresh.ensures((), after.history),
        after.frames_seen == before.frames_seen,
        after.debug_log_level == before.debug_log_level,
{
}

/// A unit that is taken in is the one that the next has to follow. The rebuilding
/// goes on where the core has the rate, the channels and the LFE of the one
/// before, and starts cold otherwise.
pub proof fn taken_units_set_the_counter<S: Copy, H, F>(
    before: ObjectPcmDecoder<S, H, F>,
    after: ObjectPcmDecoder<S, H, F>,
    core: CorePcmFrame<S>,
    counter: u16,
)
    requires
        core_taken(before, after, core, counter),
    ensures
        after.last_sequence == Some(counter),
        !after.gap,
        after.frames_seen == before.frames_seen,
        ({
            let delay = before.core_delay@;
            let same = delay.sample_rate == Some(core@.sample_rate) && delay.order == core@.order
                && (delay.lfe_present <==> core@.lfe is Some);
            &&& same ==> after.joc_state == before.joc_state
            &&& !same ==> after.joc_state.cold()
        }),
{
}

/// A rebuilt unit gives its objects as they were rebuilt, says of each whether it
/// is active, and gives its core 577 samples late: each channel begins with what
/// the one before left over, or with silence. The core itself is kept for a
/// dependent.
pub proof fn rebuilt_units_come_with_a_late_core<S: Copy, G, O, H, F: Fn() -> H>(
    before: ObjectPcmDecoder<S, H, F>,
    after: ObjectPcmDecoder<S, H, F>,
    start: ObjectStart<S, G, O>,
    channels: Vec<Vec<S>>,
    push: ObjectPcmPushResult<S, G, O>,
    channel: int,
    place: int,
)
    requires
        unit_finished(before, after, start, Ok(channels), Ok(push)),
        0 <= channel < start.core@.channels.len(),
        0 <= place < start.core@.channels[channel].len(),
    ensures
        push.frames_seen == before.frames_seen + 1,
        after.frames_seen == before.frames_seen + 1,
        after.joc_input_core == Some(start.core),
        push.pcm.object_channels == channels,
        push.info == start.info,
        push.pcm.joc_index == start.joc_index,
        push.pcm.core@.order == start.core@.order,
        push.pcm.core@.sample_rate == start.core@.sample_rate,
        push.pcm.core@.channels.len() == start.core@.channels.len(),
        push.pcm.core@.channels[channel].len() == start.core@.channels[channel].len(),
        ({
            let delay = before.core_delay@;
            let input = start.core@.channels[channel];
            let output = push.pcm.core@.channels[channel];
            let same = delay.sample_rate == Some(start.core@.sample_rate) && delay.order
                == start.core@.order && (delay.lfe_present <==> start.core@.lfe is Some) && channel
                < delay.tails.len() && delay.tails[channel].len() == 577;
            output[place] == if place >= 577 {
                input[place - 577]
            } else if same {
                delay.tails[channel][place]
            } else {
                delay.silence
            }
        }),
{
}

/// Behind a core, the delay holds the last 577 samples of each channel, or, of a
/// shorter one, what is left of those before it too.
pub proof fn delays_hold_the_last_samples<S>(
    delay: DelayModel<S>,
    core: CoreModel<S>,
    channel: int,
    place: int,
)
    requires
        0 <= channel < core.channels.len(),
        0 <= place < 577,
        core.channels[channel].len() >= 577,
    ensures
        ({
            let after = delay_after(delay, core);
            &&& after.sample_rate == Some(core.sample_rate)
            &&& after.order == core.order
            &&& after.lfe_present <==> core.lfe is Some
            &&& after.tails.len() == core.channels.len()
            &&& after.tails[channel].len() == 577
            &&& after.tails[channel][place] == core.channels[channel][core.channels[channel].len()
                - 577 + place]
        }),
{
}

/// Over any run of cores of one layout, every sample of a channel and of the LFE
/// (channel -1) comes out 577 samples after it went in, behind silence.
pub proof fn samples_come_out_577_later<S>(
    silence: S,
    cores: Seq<CoreModel<S>>,
    channel: int,
    count: int,
    place: int,
)
    requires
        same_layout(cores),
        0 <= count <= cores.len(),
        cores.len() > 0,
        -1 <= channel < cores[0].channels.len(),
        channel == -1 ==> cores[0].lfe is Some,
        0 <= place < channel_in(cores, channel, count).len(),
    ensures
        ({
            let input = channel_in(cores, channel, count);
            let output = channel_out(empty_delay(silence), cores, channel, count);
            &&& output.len() == input.len()
            &&& output[place] == if place < 577 {
                silence
            } else {
                input[place - 577]
            }
        }),
{
    runs_are_delayed_as_one(silence, cores, channel, count);
}

/// The rank of a channel in the coded order of a channel map.
pub open spec fn coded_rank(channel: BedChannel) -> int {
    match channel {
        BedChannel::FrontLeft => 0,
        BedChannel::Center => 1,
        BedChannel::FrontRight => 2,
        BedChannel::SurroundLeft => 3,
        BedChannel::SurroundRight => 4,
        BedChannel::RearLeft => 5,
        BedChannel::RearRight => 6,
        BedChannel::RearCenter => 7,
        BedChannel::WideLeft => 8,
        BedChannel::WideRight => 9,
        _ => 10,
    }
}

/// The bit of a channel map that announces a channel; a pair shares one.
pub open spec fn announcing_bit(channel: BedChannel) -> u16 {
    match channel {
        BedChannel::FrontLeft => 0x8000,
        BedChannel::Center => 0x4000,
        BedChannel::FrontRight => 0x2000,
        BedChannel::SurroundLeft => 0x1000,
        BedChannel::SurroundRight => 0x0800,
        BedChannel::RearLeft | BedChannel::RearRight => 0x0200,
        BedChannel::RearCenter => 0x0100,
        BedChannel::WideLeft | BedChannel::WideRight => 0x0020,
        _ => 0,
    }
}

/// What a bit of a map adds to a list.
proof fn lemma_mapped(
    list: Seq<BedChannel>,
    chanmap: u16,
    bit: u16,
    channels: Seq<BedChannel>,
    channel: BedChannel,
)
    ensures
        (list + crate::eac3::frame::mapped(chanmap, bit, channels)).contains(channel)
            <==> list.contains(channel) || chanmap & bit != 0 && channels.contains(channel),
{
    let added = crate::eac3::frame::mapped(chanmap, bit, channels);
    let all = list + added;
    if list.contains(channel) {
        let place = choose|place: int| 0 <= place < list.len() && list[place] == channel;
        assert(all[place] == channel);
    }
    if added.contains(channel) {
        let place = choose|place: int| 0 <= place < added.len() && added[place] == channel;
        assert(all[list.len() + place] == channel);
    }
    if all.contains(channel) {
        let place = choose|place: int| 0 <= place < all.len() && all[place] == channel;
        if place >= list.len() {
            assert(added[place - list.len()] == channel);
        }
    }
}

/// A list that ascends stays so with what a bit adds, where that comes behind.
proof fn lemma_ascends(
    list: Seq<BedChannel>,
    chanmap: u16,
    bit: u16,
    channels: Seq<BedChannel>,
    bound: int,
    next: int,
)
    requires
        forall|place: int|
            0 <= place < list.len() ==> coded_rank(#[trigger] list[place]) < bound,
        forall|left: int, right: int|
            0 <= left < right < list.len() ==> coded_rank(#[trigger] list[left]) < coded_rank(
                #[trigger] list[right],
            ),
        forall|place: int|
            0 <= place < channels.len() ==> bound <= coded_rank(#[trigger] channels[place])
                < next,
        forall|left: int, right: int|
            0 <= left < right < channels.len() ==> coded_rank(#[trigger] channels[left])
                < coded_rank(#[trigger] channels[right]),
        bound <= next,
    ensures
        ({
            let all = list + crate::eac3::frame::mapped(chanmap, bit, channels);
            &&& forall|place: int|
                0 <= place < all.len() ==> coded_rank(#[trigger] all[place]) < next
            &&& forall|left: int, right: int|
                0 <= left < right < all.len() ==> coded_rank(#[trigger] all[left]) < coded_rank(
                    #[trigger] all[right],
                )
        }),
{
}

/// The channels that a list of one or two holds.
proof fn lemma_pair(first: BedChannel, second: BedChannel, channel: BedChannel)
    ensures
        seq![first].contains(channel) <==> channel == first,
        seq![first, second].contains(channel) <==> channel == first || channel == second,
{
    assert(seq![first][0] == first);
    assert(seq![first, second][0] == first);
    assert(seq![first, second][1] == second);
}

/// A channel map names the channels whose bit is set.
proof fn lemma_named(chanmap: u16, channel: BedChannel)
    ensures
        chanmap_positions(chanmap).contains(channel) <==> {
            ||| chanmap & 0x8000 != 0 && channel == BedChannel::FrontLeft
            ||| chanmap & 0x4000 != 0 && channel == BedChannel::Center
            ||| chanmap & 0x2000 != 0 && channel == BedChannel::FrontRight
            ||| chanmap & 0x1000 != 0 && channel == BedChannel::SurroundLeft
            ||| chanmap & 0x0800 != 0 && channel == BedChannel::SurroundRight
            ||| chanmap & 0x0200 != 0 && (channel == BedChannel::RearLeft || channel
                == BedChannel::RearRight)
            ||| chanmap & 0x0100 != 0 && channel == BedChannel::RearCenter
            ||| chanmap & 0x0020 != 0 && (channel == BedChannel::WideLeft || channel
                == BedChannel::WideRight)
        },
{
    let one = crate::eac3::frame::mapped(chanmap, 0x8000, seq![BedChannel::FrontLeft]);
    let two = one + crate::eac3::frame::mapped(chanmap, 0x4000, seq![BedChannel::Center]);
    let three = two + crate::eac3::frame::mapped(chanmap, 0x2000, seq![BedChannel::FrontRight]);
    let four = three + crate::eac3::frame::mapped(
        chanmap,
        0x1000,
        seq![BedChannel::SurroundLeft],
    );
    let five = four + crate::eac3::frame::mapped(
        chanmap,
        0x0800,
        seq![BedChannel::SurroundRight],
    );
    let six = five + crate::eac3::frame::mapped(
        chanmap,
        0x0200,
        seq![BedChannel::RearLeft, BedChannel::RearRight],
    );
    let seven = six + crate::eac3::frame::mapped(chanmap, 0x0100, seq![BedChannel::RearCenter]);
    let none = Seq::<BedChannel>::empty();
    lemma_mapped(none, chanmap, 0x8000, seq![BedChannel::FrontLeft], channel);
    assert(none + one =~= one);
    lemma_mapped(one, chanmap, 0x4000, seq![BedChannel::Center], channel);
    lemma_mapped(two, chanmap, 0x2000, seq![BedChannel::FrontRight], channel);
    lemma_mapped(three, chanmap, 0x1000, seq![BedChannel::SurroundLeft], channel);
    lemma_mapped(four, chanmap, 0x0800, seq![BedChannel::SurroundRight], channel);
    lemma_mapped(five, chanmap, 0x0200, seq![BedChannel::RearLeft, BedChannel::RearRight], channel);
    lemma_mapped(six, chanmap, 0x0100, seq![BedChannel::RearCenter], channel);
    lemma_mapped(seven, chanmap, 0x0020, seq![BedChannel::WideLeft, BedChannel::WideRight], channel);
    lemma_pair(BedChannel::FrontLeft, BedChannel::FrontLeft, channel);
    lemma_pair(BedChannel::Center, BedChannel::Center, channel);
    lemma_pair(BedChannel::FrontRight, BedChannel::FrontRight, channel);
    lemma_pair(BedChannel::SurroundLeft, BedChannel::SurroundLeft, channel);
    lemma_pair(BedChannel::SurroundRight, BedChannel::SurroundRight, channel);
    lemma_pair(BedChannel::RearLeft, BedChannel::RearRight, channel);
    lemma_pair(BedChannel::RearCenter, BedChannel::RearCenter, channel);
    lemma_pair(BedChannel::WideLeft, BedChannel::WideRight, channel);
}

/// A channel map names its channels in the coded order.
proof fn lemma_coded_order(chanmap: u16)
    ensures
        forall|left: int, right: int|
            0 <= left < right < chanmap_positions(chanmap).len() ==> coded_rank(
                #[trigger] chanmap_positions(chanmap)[left],
            ) < coded_rank(#[trigger] chanmap_positions(chanmap)[right]),
{
    let one = crate::eac3::frame::mapped(chanmap, 0x8000, seq![BedChannel::FrontLeft]);
    let two = one + crate::eac3::frame::mapped(chanmap, 0x4000, seq![BedChannel::Center]);
    let three = two + crate::eac3::frame::mapped(chanmap, 0x2000, seq![BedChannel::FrontRight]);
    let four = three + crate::eac3::frame::mapped(
        chanmap,
        0x1000,
        seq![BedChannel::SurroundLeft],
    );
    let five = four + crate::eac3::frame::mapped(
        chanmap,
        0x0800,
        seq![BedChannel::SurroundRight],
    );
    let six = five + crate::eac3::frame::mapped(
        chanmap,
        0x0200,
        seq![BedChannel::RearLeft, BedChannel::RearRight],
    );
    let seven = six + crate::eac3::frame::mapped(chanmap, 0x0100, seq![BedChannel::RearCenter]);
    let none = Seq::<BedChannel>::empty();
    lemma_ascends(none, chanmap, 0x8000, seq![BedChannel::FrontLeft], 0, 1);
    assert(none + one =~= one);
    lemma_ascends(one, chanmap, 0x4000, seq![BedChannel::Center], 1, 2);
    lemma_ascends(two, chanmap, 0x2000, seq![BedChannel::FrontRight], 2, 3);
    lemma_ascends(three, chanmap, 0x1000, seq![BedChannel::SurroundLeft], 3, 4);
    lemma_ascends(four, chanmap, 0x0800, seq![BedChannel::SurroundRight], 4, 5);
    lemma_ascends(five, chanmap, 0x0200, seq![BedChannel::RearLeft, BedChannel::RearRight], 5, 7);
    lemma_ascends(six, chanmap, 0x0100, seq![BedChannel::RearCenter], 7, 8);
    lemma_ascends(seven, chanmap, 0x0020, seq![BedChannel::WideLeft, BedChannel::WideRight], 8, 10);
}

/// A channel map names exactly the channels whose bit is set, each once, in the
/// coded order: L, C, R, Ls, Rs, the back pair, the back centre, the wide pair.
pub proof fn channel_maps_name_their_channels_in_order(chanmap: u16, channel: BedChannel)
    ensures
        chanmap_positions(chanmap).contains(channel) <==> chanmap & announcing_bit(channel) != 0,
        forall|left: int, right: int|
            0 <= left < right < chanmap_positions(chanmap).len() ==> coded_rank(
                #[trigger] chanmap_positions(chanmap)[left],
            ) < coded_rank(#[trigger] chanmap_positions(chanmap)[right]),
{
    assert(chanmap & 0 == 0) by (bit_vector);
    lemma_named(chanmap, channel);
    lemma_coded_order(chanmap);
}

/// A channel that is laid over a core plays: at the place that the core has for
/// it, or at one behind the core's channels.
pub proof fn overlaid_channels_play<S>(
    core: CoreModel<S>,
    positions: Seq<BedChannel>,
    channels: Seq<Seq<S>>,
    from: int,
    index: int,
) -> (place: int)
    requires
        0 <= from <= index < positions.len(),
        positions.len() == channels.len(),
        core.order.len() == core.channels.len(),
        forall|later: int| index < later < positions.len() ==> positions[later] != positions[index],
    ensures
        ({
            let bed = overlaid(core, positions, channels, from);
            &&& bed.order.len() == bed.channels.len()
            &&& 0 <= place < bed.order.len()
            &&& bed.order[place] == positions[index]
            &&& bed.channels[place] == channels[index]
            &&& bed.order.take(core.order.len() as int) =~= core.order
            &&& bed.order.len() <= core.order.len() + positions.len() - from
            &&& place_of(core.order, positions[index], 0) matches Some(own) ==> place == own
            &&& place_of(core.order, positions[index], 0) is None ==> place >= core.order.len()
        }),
    decreases positions.len() - from,
{
    lemma_place(core.order, positions[from], 0);
    lemma_place(core.order, positions[index], 0);
    let next = match place_of(core.order, positions[from], 0) {
        Some(found) => CoreModel { channels: core.channels.update(found, channels[from]), ..core },
        None => CoreModel {
            order: core.order.push(positions[from]),
            channels: core.channels.push(channels[from]),
            ..core
        },
    };
    lemma_orders_grow(next, positions, channels, from + 1);
    let bed = overlaid(core, positions, channels, from);
    assert(bed == overlaid(next, positions, channels, from + 1));
    assert(next.order.take(core.order.len() as int) =~= core.order);
    assert(bed.order.take(core.order.len() as int) =~= bed.order.take(
        next.order.len() as int,
    ).take(core.order.len() as int));
    if from == index {
        let place = match place_of(core.order, positions[from], 0) {
            Some(found) => found,
            None => core.order.len() as int,
        };
        assert(next.order[place] == positions[index]);
        crate::eac3::frame::overlay_keeps_other_channels(
            next,
            positions,
            channels,
            from + 1,
            place,
        );
        place
    } else {
        let place = overlaid_channels_play(next, positions, channels, from + 1, index);
        lemma_place_kept(core.order, positions[from], positions[index], 0);
        lemma_place(next.order, positions[index], 0);
        place
    }
}

/// Laying channels over a core only adds to its channels, behind them.
proof fn lemma_orders_grow<S>(
    core: CoreModel<S>,
    positions: Seq<BedChannel>,
    channels: Seq<Seq<S>>,
    from: int,
)
    requires
        0 <= from <= positions.len(),
        positions.len() == channels.len(),
        core.order.len() == core.channels.len(),
    ensures
        ({
            let bed = overlaid(core, positions, channels, from);
            &&& bed.order.len() == bed.channels.len()
            &&& core.order.len() <= bed.order.len() <= core.order.len() + positions.len() - from
            &&& bed.order.take(core.order.len() as int) =~= core.order
        }),
    decreases positions.len() - from,
{
    if from < positions.len() {
        lemma_place(core.order, positions[from], 0);
        let next = match place_of(core.order, positions[from], 0) {
            Some(found) => CoreModel {
                channels: core.channels.update(found, channels[from]),
                ..core
            },
            None => CoreModel {
                order: core.order.push(positions[from]),
                channels: core.channels.push(channels[from]),
                ..core
            },
        };
        lemma_orders_grow(next, positions, channels, from + 1);
        let bed = overlaid(core, positions, channels, from);
        assert(next.order.take(core.order.len() as int) =~= core.order);
        assert(bed.order.take(core.order.len() as int) =~= bed.order.take(
            next.order.len() as int,
        ).take(core.order.len() as int));
    }
}

/// A channel is found at the same place where another one is added behind.
proof fn lemma_place_kept(
    order: Seq<BedChannel>,
    added: BedChannel,
    channel: BedChannel,
    from: int,
)
    requires
        0 <= from <= order.len(),
    ensures
        place_of(order, channel, from) is Some ==> place_of(order.push(added), channel, from)
            == place_of(order, channel, from),
        place_of(order, channel, from) is None ==> (place_of(order.push(added), channel, from)
            matches Some(place) ==> place == order.len()),
    decreases order.len() - from,
{
    reveal_with_fuel(place_of, 2);
    if from < order.len() && order[from] != channel {
        lemma_place_kept(order, added, channel, from + 1);
    }
}

/// A dependent is laid over its core exactly where it has a map with a position
/// for each of its channels and is as long as the core; otherwise the core plays
/// alone.
pub proof fn dependents_that_do_not_line_up_are_left_out<S>(
    core: CoreModel<S>,
    dependent: CoreModel<S>,
    channel_map: Option<u16>,
    merged: Option<CorePcmFrame<S>>,
)
    requires
        merges_to(core, dependent, channel_map, merged),
    ensures
        merged is Some <==> (channel_map matches Some(map) && chanmap_positions(map).len()
            == dependent.channels.len()) && samples_of(dependent) == samples_of(core),
        merged matches Some(bed) ==> bed@ == pair_bed(core, Some(dependent), channel_map),
        merged is None ==> pair_bed(core, Some(dependent), channel_map) == core,
        pair_bed(core, None, channel_map) == core,
{
}

/// The downmix that a configuration declares has five channels or seven.
pub proof fn downmixes_have_five_or_seven_channels(config: u8)
    ensures
        downmix_channels(config) == Some(5int) <==> config == 0 || config == 3,
        downmix_channels(config) == Some(7int) <==> config == 1 || config == 2 || config == 4,
        config > 4 ==> downmix_channels(config) is None,
{
}

/// A legacy unit is decoded as a core and an independent one for its objects. A
/// dependent is paired with the core that is held, a legacy one before another,
/// else with the core of the objects that were sent just before it, and else
/// belongs to nothing. What is held and is not paired is sent first, once.
pub proof fn units_ask_by_class<S: Copy, G, O>(state: StreamState<S, G, O>, class: UnitClass)
    ensures
        class == UnitClass::LegacyAc3 <==> unit_step(state, class) is DecodeLegacy,
        class == UnitClass::Independent <==> unit_step(state, class) is DecodeObjects,
        class == UnitClass::Dependent ==> {
            let step = unit_step(state, class);
            match (state.pending_ac3_core, state.pending_independent) {
                (Some(core), _) => step == UnitStep::<S, G, O>::PairCore(core),
                (None, Some(PendingIndependent::UnsentCore(core))) => step == UnitStep::<
                    S,
                    G,
                    O,
                >::PairCore(core),
                (None, Some(PendingIndependent::EmittedObject { joc_input })) => step
                    == (UnitStep::<S, G, O>::PairObject { joc_input }),
                (None, None) => step is Skip,
            }
        },
        class == UnitClass::Dependent ==> sent_first(state, class).len() == 0,
        class != UnitClass::Dependent ==> match unsent_core(state) {
            Some(core) => sent_first(state, class) =~= seq![FrameMessage::Core(core)],
            None => sent_first(state, class).len() == 0,
        },
{
}

/// A unit that goes through is sent once or held: a legacy core is held, an
/// independent unit is sent with its objects or held as a core, a pair is sent.
/// Only a dependent without objects of its own behind objects that were sent, and
/// one that belongs to nothing, give nothing. A unit that fails leaves nothing
/// held, stops a strict stream, and is replaced by as much silence in any other.
pub proof fn units_are_sent_or_held<S: Copy, G, O, FL, FO, FC, FI, FD>(
    count: int,
    gap: bool,
    after: StreamState<S, G, O>,
    step: UnitStep<S, G, O>,
    strict_mode: bool,
    header: UnitHeader,
    legacy: FL,
    objects: FO,
    core: FC,
    inspect: FI,
    dependent: FD,
    sent: Seq<FrameMessage<S, G, O>>,
    outcome: UnitOutcome,
) where
    FL: FnOnce() -> Result<PcmPushResult<S, G, O>, ParseError>,
    FO: FnOnce(bool, Option<CorePcmFrame<S>>) -> Result<
        Option<DecodedObjects<S, G, O>>,
        ParseError,
    >,
    FC: FnOnce() -> Result<PcmPushResult<S, G, O>, ParseError>,
    FI: FnOnce() -> Result<AccessUnitInfo<G, O>, ParseError>,
    FD: FnOnce() -> Option<CorePcmFrame<S>>,

    requires
        unit_completed(
            count,
            gap,
            after,
            step,
            strict_mode,
            header,
            legacy,
            objects,
            core,
            inspect,
            dependent,
            sent,
            outcome,
        ),
    ensures
        after.frame_count == count + sent.len(),
        outcome.goes_on <==> outcome.failure is None || !strict_mode,
        outcome.failure is Some ==> {
            &&& after.pending_ac3_core is None && after.pending_independent is None
            &&& strict_mode ==> sent.len() == 0
            &&& !strict_mode ==> sent =~= seq![
                FrameMessage::<S, G, O>::Silence {
                    sample_count: header.sample_count,
                    sample_rate: header.sample_rate,
                    channel_count: header.channel_count,
                },
            ]
        },
        outcome.failure is None ==> {
            let held: int = if unsent_core(after) is Some {
                1
            } else {
                0
            };
            match step {
                UnitStep::DecodeLegacy => sent.len() == 0 && held == 1
                    && after.pending_ac3_core is Some,
                UnitStep::DecodeObjects => sent.len() + held == 1 && (sent.len() == 1 ==> sent[0]
                    is Object) && after.pending_ac3_core is None,
                UnitStep::PairCore(_) => sent.len() == 1 && held == 0 && !(sent[0] is Silence),
                UnitStep::PairObject { .. } => sent.len() <= 1 && held == 0 && (sent.len() == 1
                    ==> sent[0] is Object),
                UnitStep::Skip => sent.len() == 0 && held == 0,
            }
        },
{
}

/// After a presentation without objects no payload continues the sequence, and
/// nothing else has changed.
pub proof fn gaps_break_the_sequence<S, H, F>(
    before: ObjectPcmDecoder<S, H, F>,
    after: ObjectPcmDecoder<S, H, F>,
    counter: u16,
)
    requires
        gap_noted(before, after),
    ensures
        splices(after, counter),
        after.last_sequence == before.last_sequence,
        after.frames_seen == before.frames_seen,
        after.joc_state == before.joc_state,
        after.core_delay == before.core_delay,
{
}

/// A frame is as long as its first channel, or as its LFE where it has no other.
pub proof fn frames_are_as_long_as_their_channels<S>(core: CoreModel<S>)
    ensures
        core.channels.len() > 0 ==> samples_of(core) == core.channels[0].len(),
        core.channels.len() == 0 ==> (core.lfe matches Some(lfe) ==> samples_of(core)
            == lfe.len()),
        core.channels.len() == 0 && core.lfe is None ==> samples_of(core) == 0,
{
}

/// A pair without objects sends one bed: the core that was held with the channels
/// that the dependent decodes to laid over it, and what the dependent says. A pair
/// with objects has them rebuilt from the core that was held.
pub proof fn pairs_are_made_of_the_held_core<S: Copy, G, O, FL, FO, FC, FI, FD>(
    count: int,
    gap: bool,
    after: StreamState<S, G, O>,
    held: PcmPushResult<S, G, O>,
    strict_mode: bool,
    header: UnitHeader,
    legacy: FL,
    objects: FO,
    core: FC,
    inspect: FI,
    dependent: FD,
    sent: Seq<FrameMessage<S, G, O>>,
    outcome: UnitOutcome,
) where
    FL: FnOnce() -> Result<PcmPushResult<S, G, O>, ParseError>,
    FO: FnOnce(bool, Option<CorePcmFrame<S>>) -> Result<
        Option<DecodedObjects<S, G, O>>,
        ParseError,
    >,
    FC: FnOnce() -> Result<PcmPushResult<S, G, O>, ParseError>,
    FI: FnOnce() -> Result<AccessUnitInfo<G, O>, ParseError>,
    FD: FnOnce() -> Option<CorePcmFrame<S>>,

    requires
        unit_completed(
            count,
            gap,
            after,
            UnitStep::PairCore(held),
            strict_mode,
            header,
            legacy,
            objects,
            core,
            inspect,
            dependent,
            sent,
            outcome,
        ),
        outcome.failure is None,
    ensures
        match sent[0] {
            FrameMessage::Core(push) => {
                &&& inspect.ensures((), Ok(push.info))
                &&& push.frames_seen == count + 1
                &&& outcome.gap
                &&& exists|channels: Option<CorePcmFrame<S>>|
                    {
                        &&& #[trigger] dependent.ensures((), channels)
                        &&& match channels {
                            Some(found) => push.pcm@ == pair_bed(
                                held.pcm@,
                                Some(found@),
                                push.info.dependent_channel_map,
                            ),
                            None => push.pcm@ == held.pcm@,
                        }
                    }
            },
            FrameMessage::Object(push) => {
                &&& !outcome.gap
                &&& exists|given: CorePcmFrame<S>, found: DecodedObjects<S, G, O>|
                    {
                        &&& #[trigger] objects.ensures((false, Some(given)), Ok(Some(found)))
                        &&& given@ == held.pcm@
                        &&& found.push == push
                    }
            },
            FrameMessage::Silence { .. } => false,
        },
{
    let info = choose|info: Result<AccessUnitInfo<G, O>, ParseError>|
        {
            &&& #[trigger] inspect.ensures((), info)
            &&& match info {
                Err(_) => false,
                Ok(info) => if joc_count(info.payloads@, 0) > 0 {
                    exists|
                        given: CorePcmFrame<S>,
                        decoded: Result<Option<DecodedObjects<S, G, O>>, ParseError>,
                    |
                        {
                            &&& #[trigger] objects.ensures((false, Some(given)), decoded)
                            &&& given@ == held.pcm@
                            &&& match decoded {
                                Ok(Some(found)) => {
                                    &&& !outcome.gap
                                    &&& sent =~= seq![FrameMessage::Object(found.push)]
                                },
                                Ok(None) => bed_sent(
                                    count,
                                    after,
                                    held,
                                    info,
                                    dependent,
                                    sent,
                                    outcome,
                                ),
                                Err(_) => false,
                            }
                        }
                } else {
                    bed_sent(count, after, held, info, dependent, sent, outcome)
                },
            }
        };
    let known = info->Ok_0;
    if let FrameMessage::Core(push) = sent[0] {
        assert(bed_sent(count, after, held, known, dependent, sent, outcome));
    }
}

/// A rebuilt unit says of each object of its payload whether it is active, and
/// lists its object metadata where they are.
pub proof fn rebuilt_units_say_which_objects_are_active<S: Copy, G, O, H, F: Fn() -> H>(
    before: ObjectPcmDecoder<S, H, F>,
    after: ObjectPcmDecoder<S, H, F>,
    start: ObjectStart<S, G, O>,
    channels: Vec<Vec<S>>,
    push: ObjectPcmPushResult<S, G, O>,
    index: int,
)
    requires
        unit_finished(before, after, start, Ok(channels), Ok(push)),
        start.info.payloads@[start.joc_index as int].parsed is Joc,
    ensures
        ({
            let objects = start.info.payloads@[start.joc_index as int].parsed->Joc_0.objects@;
            &&& push.pcm.object_active@.len() == objects.len()
            &&& 0 <= index < objects.len() ==> push.pcm.object_active@[index]
                == objects[index].active
            &&& push.pcm.oamd_indices@.len() == oamd_places(start.info.payloads@, 0).len()
            &&& 0 <= index < push.pcm.oamd_indices@.len() ==> push.pcm.oamd_indices@[index]
                == oamd_places(start.info.payloads@, 0)[index]
        }),
{
}

/// A unit that fails to be rebuilt says why and leaves a decoder without history,
/// and is not counted.
pub proof fn failed_units_leave_no_history<S: Copy, G, O, H, F: Fn() -> H>(
    before: ObjectPcmDecoder<S, H, F>,
    after: ObjectPcmDecoder<S, H, F>,
    start: ObjectStart<S, G, O>,
    reason: ParseError,
    result: Result<ObjectPcmPushResult<S, G, O>, ParseError>,
)
    requires
        unit_finished(before, after, start, Err(reason), result),
    ensures
        result matches Err(error) && error == reason,
        after.last_sequence is None,
        after.joc_input_core is None,
        after.joc_state.prev_matrix@.len() == 0,
        after.frames_seen == before.frames_seen,
{
}

/// Objects that are sent keep the core that they were rebuilt from, for a
/// dependent that follows at once; a unit without objects is held as its core.
pub proof fn sent_objects_keep_their_core<S: Copy, G, O, FL, FO, FC, FI, FD>(
    count: int,
    gap: bool,
    after: StreamState<S, G, O>,
    strict_mode: bool,
    header: UnitHeader,
    legacy: FL,
    objects: FO,
    core: FC,
    inspect: FI,
    dependent: FD,
    sent: Seq<FrameMessage<S, G, O>>,
    outcome: UnitOutcome,
) where
    FL: FnOnce() -> Result<PcmPushResult<S, G, O>, ParseError>,
    FO: FnOnce(bool, Option<CorePcmFrame<S>>) -> Result<
        Option<DecodedObjects<S, G, O>>,
        ParseError,
    >,
    FC: FnOnce() -> Result<PcmPushResult<S, G, O>, ParseError>,
    FI: FnOnce() -> Result<AccessUnitInfo<G, O>, ParseError>,
    FD: FnOnce() -> Option<CorePcmFrame<S>>,

    requires
        unit_completed(
            count,
            gap,
            after,
            UnitStep::DecodeObjects,
            strict_mode,
            header,
            legacy,
            objects,
            core,
            inspect,
            dependent,
            sent,
            outcome,
        ),
        outcome.failure is None,
    ensures
        sent.len() == 1 ==> exists|found: DecodedObjects<S, G, O>|
            {
                &&& #[trigger] objects.ensures((gap, None::<CorePcmFrame<S>>), Ok(Some(found)))
                &&& sent[0] == FrameMessage::<S, G, O>::Object(found.push)
                &&& match found.joc_input {
                    Some(input) => after.pending_independent == Some(
                        PendingIndependent::<S, G, O>::EmittedObject { joc_input: input },
                    ),
                    None => after.pending_independent is None,
                }
            },
        sent.len() == 0 ==> {
            &&& after.pending_independent matches Some(PendingIndependent::UnsentCore(held))
            &&& core.ensures((), Ok(held))
        },
{
}

/// What is held and not paired goes out before anything else of a unit that is no
/// dependent, and every message is counted. The object decoder hears of that
/// presentation without objects before it decodes this unit; where no objects are
/// decoded it is still to be told.
pub proof fn held_cores_go_out_before_the_next_unit<S: Copy, G, O, FL, FO, FC, FI, FD>(
    before: StreamState<S, G, O>,
    after: StreamState<S, G, O>,
    class: UnitClass,
    strict_mode: bool,
    header: UnitHeader,
    legacy: FL,
    objects: FO,
    core: FC,
    inspect: FI,
    dependent: FD,
    outs: (Seq<FrameMessage<S, G, O>>, Seq<FrameMessage<S, G, O>>),
    outcome: UnitOutcome,
) where
    FL: FnOnce() -> Result<PcmPushResult<S, G, O>, ParseError>,
    FO: FnOnce(bool, Option<CorePcmFrame<S>>) -> Result<
        Option<DecodedObjects<S, G, O>>,
        ParseError,
    >,
    FC: FnOnce() -> Result<PcmPushResult<S, G, O>, ParseError>,
    FI: FnOnce() -> Result<AccessUnitInfo<G, O>, ParseError>,
    FD: FnOnce() -> Option<CorePcmFrame<S>>,

    requires
        unit_handled(
            before,
            after,
            class,
            strict_mode,
            header,
            legacy,
            objects,
            core,
            inspect,
            dependent,
            outs.0,
            outs.1,
            outcome,
        ),
    ensures
        outs.1.len() >= outs.0.len(),
        outs.1.take(outs.0.len() as int) =~= outs.0,
        after.frame_count - before.frame_count == outs.1.len() - outs.0.len(),
        class != UnitClass::Dependent ==> {
            &&& unsent_core(before) matches Some(held) ==> outs.1.len() > outs.0.len()
                && outs.1[outs.0.len() as int] == FrameMessage::<S, G, O>::Core(held)
            &&& class == UnitClass::Independent ==> exists|
                decoded: Result<Option<DecodedObjects<S, G, O>>, ParseError>,
            | #[trigger]
                objects.ensures((unsent_core(before) is Some, None::<CorePcmFrame<S>>), decoded)
            &&& class == UnitClass::LegacyAc3 && outcome.failure is None ==> outcome.gap
                == unsent_core(before) is Some
        },
        class == UnitClass::Dependent && unsent_core(before) is Some && outcome.goes_on
            ==> outs.1.len() == outs.0.len() + 1,
{
    let first = sent_first(before, class);
    let sent = outs.1.skip((outs.0.len() + first.len()) as int);
    assert(outs.1 == outs.0 + first + sent);
    units_are_sent_or_held(
        before.frame_count + first.len(),
        first.len() > 0,
        after,
        unit_step(before, class),
        strict_mode,
        header,
        legacy,
        objects,
        core,
        inspect,
        dependent,
        sent,
        outcome,
    );
}

/// A unit is refused for one of three reasons: it could not be read, it does not
/// have the size that it says, or it could not be decoded.
pub proof fn units_are_refused_for_a_reason<S, G, O, H, F: Fn() -> H, I, D>(
    before: PcmDecoder<H, F>,
    after: PcmDecoder<H, F>,
    access_unit: &[u8],
    inspect: I,
    decode: D,
    error: ParseError,
) where
    I: FnOnce(&[u8], Level, H) -> (H, Result<AccessUnitInfo<G, O>, ParseError>),
    D: FnOnce(&[u8], &AccessUnitInfo<G, O>, H) -> (H, Result<CoreDecode<S>, ParseError>),

    requires
        core_pushed::<S, G, O, H, F, I, D>(
            before,
            after,
            access_unit,
            inspect,
            decode,
            Err(error),
        ),
    ensures
        after.frames_seen == before.frames_seen,
        after.fresh.ensures((), after.history),
        !after.spx_in_use && after.chinspx@.len() == 0,
        exists|read: H, found: Result<AccessUnitInfo<G, O>, ParseError>|
            {
                &&& #[trigger] inspect.ensures(
                    (access_unit, before.debug_log_level, before.history),
                    (read, found),
                )
                &&& match found {
                    Err(reason) => error == reason,
                    Ok(info) => if access_unit@.len() != info.frame_size {
                        Some(error) == size_error(access_unit@.len(), info.frame_size)
                    } else {
                        exists|left: H, reason: ParseError|
                            {
                                &&& #[trigger] decode.ensures(
                                    (access_unit, &info, read),
                                    (left, Err(reason)),
                                )
                                &&& error == reason
                            }
                    },
                }
            },
{
    let (read, found) = choose|read: H, found: Result<AccessUnitInfo<G, O>, ParseError>|
        {
            &&& #[trigger] inspect.ensures(
                (access_unit, before.debug_log_level, before.history),
                (read, found),
            )
            &&& match found {
                Err(reason) => error == reason,
                Ok(info) => match size_error(access_unit@.len(), info.frame_size) {
                    Some(reason) => error == reason,
                    None => exists|left: H, decoded: Result<CoreDecode<S>, ParseError>|
                        {
                            &&& #[trigger] decode.ensures(
                                (access_unit, &info, read),
                                (left, decoded),
                            )
                            &&& decoded matches Err(reason) && error == reason
                        },
                },
            }
        };
    if let Ok(info) = found {
        if size_error(access_unit@.len(), info.frame_size) is None {
            let (left, decoded) = choose|left: H, decoded: Result<CoreDecode<S>, ParseError>|
                {
                    &&& #[trigger] decode.ensures((access_unit, &info, read), (left, decoded))
                    &&& decoded matches Err(reason) && error == reason
                };
            assert(decode.ensures((access_unit, &info, read), (left, Err(error))));
        }
    }
}

/// Objects that could be rebuilt are given: nothing else is asked of a unit then.
pub proof fn rebuilt_objects_are_given<S: Copy, G, O, H, F: Fn() -> H>(
    before: ObjectPcmDecoder<S, H, F>,
    after: ObjectPcmDecoder<S, H, F>,
    start: ObjectStart<S, G, O>,
    channels: Vec<Vec<S>>,
    result: Result<ObjectPcmPushResult<S, G, O>, ParseError>,
)
    requires
        unit_finished(before, after, start, Ok(channels), result),
    ensures
        result matches Ok(push) && push.pcm.object_channels == channels,
        after.last_sequence == before.last_sequence,
        after.joc_state == before.joc_state,
        after.history == before.history,
{
}

/// A unit whose syntax is read once is refused where that fails or its size is
/// wrong, is passed by where it has no JOC payload, and is settled by the first
/// one where it has.
pub proof fn read_units_are_settled_by_their_payload<S: Copy, G, O, H, F: Fn() -> H, I>(
    before: ObjectPcmDecoder<S, H, F>,
    after: ObjectPcmDecoder<S, H, F>,
    access_unit: &[u8],
    inspect: I,
    result: Result<Option<(AccessUnitInfo<G, O>, usize)>, ParseError>,
) where I: Fn(&[u8], Level, H) -> (H, Result<AccessUnitInfo<G, O>, ParseError>)
    requires
        unit_read(before, after, access_unit, inspect, result),
    ensures
        match result {
            Ok(Some((info, index))) => {
                &&& index < info.payloads@.len()
                &&& info.payloads@[index as int].parsed is Joc
                &&& forall|earlier: int|
                    0 <= earlier < index ==> !((#[trigger] info.payloads@[earlier]).parsed is Joc)
                &&& access_unit@.len() == info.frame_size
                &&& inspect.ensures(
                    (access_unit, before.debug_log_level, before.history),
                    (after.history, Ok(info)),
                )
            },
            Ok(None) => exists|info: AccessUnitInfo<G, O>|
                {
                    &&& #[trigger] inspect.ensures(
                        (access_unit, before.debug_log_level, before.history),
                        (after.history, Ok(info)),
                    )
                    &&& access_unit@.len() == info.frame_size
                    &&& forall|place: int|
                        0 <= place < info.payloads@.len() ==> !((
                        #[trigger] info.payloads@[place]).parsed is Joc)
                },
            Err(_) => after.last_sequence is None && after.joc_input_core is None,
        },
        result is Ok ==> after == (ObjectPcmDecoder { history: after.history, ..before }),
{
    let (read, found) = choose|read: H, found: Result<AccessUnitInfo<G, O>, ParseError>|
        {
            &&& #[trigger] inspect.ensures(
                (access_unit, before.debug_log_level, before.history),
                (read, found),
            )
            &&& match found {
                Err(reason) => {
                    &&& result matches Err(error) && error == reason
                    &&& history_cleared(before, after)
                },
                Ok(info) => match size_error(access_unit@.len(), info.frame_size) {
                    Some(reason) => {
                        &&& result matches Err(error) && error == reason
                        &&& history_cleared(before, after)
                    },
                    None => {
                        &&& after == (ObjectPcmDecoder { history: read, ..before })
                        &&& match first_joc(info.payloads@, 0) {
                            None => result matches Ok(None),
                            Some(index) => {
                                &&& result matches Ok(Some(settled))
                                &&& settled.0 == info
                                &&& settled.1 == index
                            },
                        }
                    },
                },
            }
        };
    if let Ok(info) = found {
        first_payloads_are_taken(info.payloads@, 0);
        if result is Ok {
            assert(inspect.ensures(
                (access_unit, before.debug_log_level, before.history),
                (after.history, Ok(info)),
            ));
        }
    }
}

/// A legacy unit that goes through is held as it was decoded. A dependent behind
/// objects that were sent is rebuilt from the core of those, and is sent where it
/// has objects.
pub proof fn units_use_what_is_their_own<S: Copy, G, O, FL, FO, FC, FI, FD>(
    count: int,
    gap: bool,
    after: StreamState<S, G, O>,
    step: UnitStep<S, G, O>,
    strict_mode: bool,
    header: UnitHeader,
    legacy: FL,
    objects: FO,
    core: FC,
    inspect: FI,
    dependent: FD,
    sent: Seq<FrameMessage<S, G, O>>,
    outcome: UnitOutcome,
) where
    FL: FnOnce() -> Result<PcmPushResult<S, G, O>, ParseError>,
    FO: FnOnce(bool, Option<CorePcmFrame<S>>) -> Result<
        Option<DecodedObjects<S, G, O>>,
        ParseError,
    >,
    FC: FnOnce() -> Result<PcmPushResult<S, G, O>, ParseError>,
    FI: FnOnce() -> Result<AccessUnitInfo<G, O>, ParseError>,
    FD: FnOnce() -> Option<CorePcmFrame<S>>,

    requires
        unit_completed(
            count,
            gap,
            after,
            step,
            strict_mode,
            header,
            legacy,
            objects,
            core,
            inspect,
            dependent,
            sent,
            outcome,
        ),
        outcome.failure is None,
    ensures
        step is DecodeLegacy ==> {
            &&& after.pending_ac3_core matches Some(held)
            &&& legacy.ensures((), Ok(held))
            &&& after.pending_independent is None
        },
        step matches UnitStep::PairObject { joc_input } ==> exists|
            decoded: Option<DecodedObjects<S, G, O>>,
        |
            {
                &&& #[trigger] objects.ensures((false, Some(joc_input)), Ok(decoded))
                &&& match decoded {
                    Some(found) => sent =~= seq![FrameMessage::Object(found.push)],
                    None => sent.len() == 0,
                }
            },
{
    if let UnitStep::PairObject { joc_input } = step {
        let decoded = choose|decoded: Result<Option<DecodedObjects<S, G, O>>, ParseError>|
            {
                &&& #[trigger] objects.ensures((false, Some(joc_input)), decoded)
                &&& match decoded {
                    Ok(found) => match found {
                        Some(found) => sent =~= seq![FrameMessage::Object(found.push)],
                        None => sent.len() == 0,
                    },
                    Err(_) => false,
                }
            };
        assert(objects.ensures((false, Some(joc_input)), Ok(decoded->Ok_0)));
    }
}

/// A unit whose core could be decoded starts with that core, what was read of it
/// and its own payload, whose counter the next one has to follow; one whose core
/// could not says why and leaves no history.
pub proof fn started_units_take_their_core_and_counter<S: Copy, G, O, H, F: Fn() -> H>(
    before: ObjectPcmDecoder<S, H, F>,
    after: ObjectPcmDecoder<S, H, F>,
    info: AccessUnitInfo<G, O>,
    joc_index: int,
    core: Result<CorePcmFrame<S>, ParseError>,
    result: Result<Option<ObjectStart<S, G, O>>, ParseError>,
)
    requires
        unit_started(before, after, info, joc_index, core, result),
    ensures
        core matches Ok(pcm) ==> {
            &&& result matches Ok(Some(start))
            &&& start.core == pcm
            &&& start.info == info
            &&& start.joc_index == joc_index
            &&& after.last_sequence == Some(info.payloads@[joc_index].parsed->Joc_0.sequence_counter)
            &&& !after.gap
            &&& after.core_delay == before.core_delay
            &&& after.history == before.history
        },
        core matches Err(reason) ==> {
            &&& result == Err::<Option<ObjectStart<S, G, O>>, ParseError>(reason)
            &&& after.last_sequence is None
            &&& after.joc_state.prev_matrix@.len() == 0
        },
{
}

} // verus!
