//! Objects of a DTS:X presentation: which channels carry them, where they are,
//! and when the renderer is told.

use crate::bridge::frame::{Event, MetadataFrame, NameUpdate, ObjectChannel, SphericalPosition};
use crate::bridge::labels::SpatialChannel;
use vstd::arithmetic::div_mod::{lemma_mod_adds, lemma_mod_decreases};
use vstd::prelude::*;

verus! {

/// Object ids start past the legacy bed-id range.
pub const OBJECT_ID_BASE: u32 = 10;

/// Unchanged object positions are announced again at this rate, so that
/// monitoring clients with an idle timeout below a second keep the objects
/// alive.
pub const HEARTBEAT_HZ: u64 = 2;

/// Most waveforms that an extension carries.
pub const MAX_SOURCES: usize = 8;

/// How the extension waveforms of a stream are presented: objects first, then
/// the fixed height channels.
#[derive(Debug, Clone, Copy, PartialEq, Eq, Structural)]
pub enum XPresentation {
    /// Four fixed heights.
    Height,
    /// One object and four fixed heights.
    ObjectD0,
    /// Three objects and four fixed heights.
    ObjectsD0,
    /// Two objects and four fixed heights.
    ObjectsD1,
    /// Four objects and four fixed heights.
    ObjectsD3,
    /// One object.
    ObjectOnly,
}

impl XPresentation {
    /// Number of object waveforms, which come first.
    pub open spec fn objects(self) -> int {
        match self {
            XPresentation::Height => 0,
            XPresentation::ObjectD0 => 1,
            XPresentation::ObjectsD0 => 3,
            XPresentation::ObjectsD1 => 2,
            XPresentation::ObjectsD3 => 4,
            XPresentation::ObjectOnly => 1,
        }
    }

    /// The fixed channels that the other waveforms play on.
    pub open spec fn heights(self) -> Seq<SpatialChannel> {
        match self {
            XPresentation::ObjectOnly => Seq::empty(),
            _ => seq![
                SpatialChannel::TopFrontLeft,
                SpatialChannel::TopFrontRight,
                SpatialChannel::TopBackLeft,
                SpatialChannel::TopBackRight,
            ],
        }
    }

    /// Number of waveforms.
    pub open spec fn feeds(self) -> int {
        self.objects() + self.heights().len()
    }

    /// Number of object waveforms, which come first.
    pub fn object_count(self) -> (count: usize)
        ensures
            count == self.objects(),
    {
        match self {
            XPresentation::Height => 0,
            XPresentation::ObjectD0 => 1,
            XPresentation::ObjectsD0 => 3,
            XPresentation::ObjectsD1 => 2,
            XPresentation::ObjectsD3 => 4,
            XPresentation::ObjectOnly => 1,
        }
    }

    /// The fixed channels that the other waveforms play on.
    pub fn fixed_channels(self) -> (channels: Vec<SpatialChannel>)
        ensures
            channels@ == self.heights(),
    {
        let mut channels: Vec<SpatialChannel> = Vec::new();
        match self {
            XPresentation::ObjectOnly => {},
            _ => {
                channels.push(SpatialChannel::TopFrontLeft);
                channels.push(SpatialChannel::TopFrontRight);
                channels.push(SpatialChannel::TopBackLeft);
                channels.push(SpatialChannel::TopBackRight);
            },
        }
        assert(channels@ =~= self.heights());
        channels
    }

    /// Number of waveforms.
    pub fn feed_count(self) -> (count: usize)
        ensures
            count == self.feeds(),
            count <= MAX_SOURCES,
    {
        match self {
            XPresentation::ObjectOnly => 1,
            _ => self.object_count() + 4,
        }
    }
}

/// The position that the metadata gives to waveform `feed`, if it is an object
/// with one.
pub open spec fn position_of(
    positions: Seq<Option<SphericalPosition>>,
    feed: int,
) -> Option<SphericalPosition> {
    if feed < positions.len() {
        positions[feed]
    } else {
        None
    }
}

/// Object ids and channels of a presentation whose first object channel is
/// `first`.
pub open spec fn declaration(presentation: XPresentation, first: int) -> Seq<ObjectChannel> {
    Seq::new(
        presentation.objects() as nat,
        |index: int|
            ObjectChannel {
                id: (OBJECT_ID_BASE + index) as u32,
                channel: (first + index) as u32,
            },
    )
}

/// The positions of the objects from `feed` on, as events at `sample_pos`.
pub open spec fn position_events(
    positions: Seq<Option<SphericalPosition>>,
    sample_pos: u64,
    feed: int,
    count: int,
) -> Seq<Event>
    decreases count - feed,
{
    if feed >= count {
        Seq::empty()
    } else {
        let rest = position_events(positions, sample_pos, feed + 1, count);
        match position_of(positions, feed) {
            Some(position) => seq![
                Event { id: (OBJECT_ID_BASE + feed) as u32, sample_pos, position },
            ] + rest,
            None => rest,
        }
    }
}

/// Whether a positioned object is elsewhere than last announced.
pub open spec fn any_moved(
    positions: Seq<Option<SphericalPosition>>,
    emitted: Seq<Option<SphericalPosition>>,
    count: int,
) -> bool {
    exists|feed: int|
        0 <= feed < count && position_of(positions, feed) is Some && #[trigger] emitted[feed]
            != position_of(positions, feed)
}

/// Whether the heartbeat falls into the `sample_count` samples from
/// `sample_pos` on.
pub open spec fn heartbeat_due(sample_rate: u32, sample_pos: u64, sample_count: usize) -> bool {
    let period = sample_rate as int / HEARTBEAT_HZ as int;
    period > 0 && sample_pos as int % period < sample_count
}

/// What the renderer was told last.
#[verifier::ext_equal]
pub struct Announced {
    pub emitted: Seq<Option<SphericalPosition>>,
    pub declared: Option<Seq<ObjectChannel>>,
}

/// One frame's objects, as the metadata gives them.
pub struct ObjectsModel {
    pub presentation: XPresentation,
    pub positions: Seq<Option<SphericalPosition>>,
    pub first_object_channel: int,
    pub sample_pos: u64,
    pub sample_rate: u32,
    pub sample_count: usize,
}

/// Whether the declaration is the one that the renderer has.
pub open spec fn declaration_known(objects: ObjectsModel, told: Announced) -> bool {
    told.declared == Some(declaration(objects.presentation, objects.first_object_channel))
}

/// Whether this frame announces positions.
pub open spec fn positions_due(objects: ObjectsModel, told: Announced) -> bool {
    ||| any_moved(objects.positions, told.emitted, objects.presentation.objects())
    ||| !declaration_known(objects, told)
    ||| heartbeat_due(objects.sample_rate, objects.sample_pos, objects.sample_count)
}

/// The events of this frame: every positioned object, or none.
pub open spec fn frame_events(objects: ObjectsModel, told: Announced) -> Seq<Event> {
    if objects.presentation.objects() > 0 && positions_due(objects, told) {
        position_events(objects.positions, objects.sample_pos, 0, objects.presentation.objects())
    } else {
        Seq::empty()
    }
}

/// The declaration that this frame makes: the whole one where it is news.
pub open spec fn frame_declaration(objects: ObjectsModel, told: Announced) -> Seq<ObjectChannel> {
    if objects.presentation.objects() > 0 && !declaration_known(objects, told) {
        declaration(objects.presentation, objects.first_object_channel)
    } else {
        Seq::empty()
    }
}

/// What the renderer has been told after this frame.
pub open spec fn announced_after(objects: ObjectsModel, told: Announced) -> Announced {
    let count = objects.presentation.objects();
    if count == 0 {
        told
    } else {
        Announced {
            emitted: if positions_due(objects, told) {
                Seq::new(
                    told.emitted.len(),
                    |feed: int|
                        if feed < count && position_of(objects.positions, feed) is Some {
                            position_of(objects.positions, feed)
                        } else {
                            told.emitted[feed]
                        },
                )
            } else {
                told.emitted
            },
            declared: Some(declaration(objects.presentation, objects.first_object_channel)),
        }
    }
}

/// The name of the object on waveform `feed`.
pub open spec fn feed_name(feed: int) -> Seq<char> {
    if feed == 0 {
        "X0"@
    } else if feed == 1 {
        "X1"@
    } else if feed == 2 {
        "X2"@
    } else {
        "X3"@
    }
}

/// The list of declared channels, where there is one.
pub open spec fn declared_list(declared: Option<Vec<ObjectChannel>>) -> Option<Seq<ObjectChannel>> {
    match declared {
        Some(channels) => Some(channels@),
        None => None,
    }
}

/// `frame` says of the objects what this frame owes.
pub open spec fn describes(
    frame: MetadataFrame,
    objects: ObjectsModel,
    told: Announced,
) -> bool {
    let named = frame_declaration(objects, told).len();
    &&& frame.events@ == frame_events(objects, told)
    &&& frame.object_channels@ == frame_declaration(objects, told)
    &&& frame.name_updates@.len() == named
    &&& forall|feed: int|
        0 <= feed < named ==> {
            &&& (#[trigger] frame.name_updates@[feed]).id == OBJECT_ID_BASE + feed
            &&& frame.name_updates@[feed].name@ == feed_name(feed)
        }
    &&& frame.sample_pos == objects.sample_pos
    &&& frame.ramp_duration == 0
}

/// Whether this frame has nothing to announce.
pub open spec fn nothing_due(objects: ObjectsModel, told: Announced) -> bool {
    ||| objects.presentation.objects() == 0
    ||| declaration_known(objects, told) && frame_events(objects, told).len() == 0
}

/// Whether two lists of channels are the same.
fn same_channels(left: &Vec<ObjectChannel>, right: &Vec<ObjectChannel>) -> (same: bool)
    ensures
        same == (left@ == right@),
{
    if left.len() != right.len() {
        return false;
    }
    let mut index: usize = 0;
    while index < left.len()
        invariant
            left@.len() == right@.len(),
            index <= left@.len(),
            forall|seen: int| 0 <= seen < index ==> left@[seen] == right@[seen],
        decreases left.len() - index,
    {
        if left[index] != right[index] {
            return false;
        }
        index = index + 1;
    }
    assert(left@ =~= right@);
    true
}

/// The position that the metadata gives to waveform `feed`.
fn position_at(positions: &Vec<Option<SphericalPosition>>, feed: usize) -> (position: Option<
    SphericalPosition,
>)
    ensures
        position == position_of(positions@, feed as int),
{
    if feed < positions.len() {
        positions[feed]
    } else {
        None
    }
}

/// The name of the object on waveform `feed`.
fn name_of(feed: usize) -> (name: String)
    ensures
        name@ == feed_name(feed as int),
{
    let name: &'static str = match feed {
        0 => "X0",
        1 => "X1",
        2 => "X2",
        _ => "X3",
    };
    name.to_owned()
}

/// Whether two positions are the same.
fn same_position(
    left: Option<SphericalPosition>,
    right: Option<SphericalPosition>,
) -> (same: bool)
    ensures
        same == (left == right),
{
    match (left, right) {
        (Some(left), Some(right)) => left == right,
        (None, None) => true,
        _ => false,
    }
}

/// The object channels of a presentation.
fn declare(presentation: XPresentation, first: usize) -> (channels: Vec<ObjectChannel>)
    requires
        first + presentation.objects() <= u32::MAX,
    ensures
        channels@ == declaration(presentation, first as int),
{
    let count: usize = presentation.object_count();
    let mut channels: Vec<ObjectChannel> = Vec::new();
    let mut feed: usize = 0;
    while feed < count
        invariant
            feed <= count <= 8,
            count == presentation.objects(),
            first + presentation.objects() <= u32::MAX,
            channels@ == declaration(presentation, first as int).take(feed as int),
        decreases count - feed,
    {
        channels.push(
            ObjectChannel { id: OBJECT_ID_BASE + feed as u32, channel: (first + feed) as u32 },
        );
        assert(channels@ =~= declaration(presentation, first as int).take(feed + 1));
        feed = feed + 1;
    }
    assert(channels@ =~= declaration(presentation, first as int));
    channels
}

/// Object channel declaration and position events for a presentation with
/// objects.
///
/// Declarations are made again when they change. Positions are announced when
/// one changes, when the declaration changes, and on the heartbeat; then every
/// positioned object is announced, because the renderer clears the objects
/// that a frame leaves out. A presentation without objects announces nothing.
pub fn build_object_metadata(
    presentation: XPresentation,
    positions: &Vec<Option<SphericalPosition>>,
    first_object_channel: usize,
    sample_pos: u64,
    sample_rate: u32,
    sample_count: usize,
    emitted: &mut [Option<SphericalPosition>; 8],
    declared: &mut Option<Vec<ObjectChannel>>,
) -> (frames: Vec<MetadataFrame>)
    requires
        first_object_channel + presentation.objects() <= u32::MAX,
    ensures
        ({
            let objects = ObjectsModel {
                presentation,
                positions: positions@,
                first_object_channel: first_object_channel as int,
                sample_pos,
                sample_rate,
                sample_count,
            };
            let told = Announced { emitted: old(emitted)@, declared: declared_list(*old(declared)) };
            &&& (Announced { emitted: final(emitted)@, declared: declared_list(*final(declared)) })
                == announced_after(objects, told)
            &&& if nothing_due(objects, told) {
                frames@.len() == 0
            } else {
                frames@.len() == 1 && describes(frames@[0], objects, told)
            }
        }),
{
    let ghost objects = ObjectsModel {
        presentation,
        positions: positions@,
        first_object_channel: first_object_channel as int,
        sample_pos,
        sample_rate,
        sample_count,
    };
    let ghost told = Announced { emitted: emitted@, declared: declared_list(*declared) };
    let count: usize = presentation.object_count();
    if count == 0 {
        return Vec::new();
    }
    let current: Vec<ObjectChannel> = declare(presentation, first_object_channel);
    let unchanged: bool = match declared.as_ref() {
        Some(channels) => same_channels(channels, &current),
        None => false,
    };
    assert(unchanged == declaration_known(objects, told));
    let period: u64 = sample_rate as u64 / HEARTBEAT_HZ;
    let heartbeat: bool = period > 0 && sample_pos % period < sample_count as u64;
    let mut moved: bool = false;
    let mut feed: usize = 0;
    while feed < count
        invariant
            feed <= count <= 8,
            emitted@ == told.emitted,
            moved == any_moved(positions@, emitted@, feed as int),
        decreases count - feed,
    {
        let position: Option<SphericalPosition> = position_at(positions, feed);
        if position.is_some() && !same_position(emitted[feed], position) {
            assert(emitted@[feed as int] != position_of(positions@, feed as int));
            moved = true;
        }
        proof {
            if any_moved(positions@, emitted@, feed + 1) && !moved {
                let other = choose|other: int|
                    0 <= other < feed + 1 && position_of(positions@, other) is Some
                        && #[trigger] emitted@[other] != position_of(positions@, other);
                assert(other == feed);
            }
        }
        feed = feed + 1;
    }
    let due: bool = moved || !unchanged || heartbeat;
    assert(due == positions_due(objects, told));
    let mut events: Vec<Event> = Vec::new();
    if due {
        let ghost all = position_events(positions@, sample_pos, 0, count as int);
        let mut feed: usize = 0;
        assert(events@ + all =~= all);
        while feed < count
            invariant
                feed <= count <= 8,
                count == presentation.objects(),
                objects.presentation == presentation,
                objects.positions == positions@,
                told.emitted.len() == 8,
                all == events@ + position_events(positions@, sample_pos, feed as int, count as int),
                forall|seen: int|
                    0 <= seen < 8 ==> #[trigger] emitted@[seen] == if seen < feed && position_of(
                        positions@,
                        seen,
                    ) is Some {
                        position_of(positions@, seen)
                    } else {
                        told.emitted[seen]
                    },
            decreases count - feed,
        {
            let ghost before = events@;
            if let Some(position) = position_at(positions, feed) {
                emitted[feed] = Some(position);
                let event = Event { id: OBJECT_ID_BASE + feed as u32, sample_pos, position };
                events.push(event);
                assert(before + (seq![event] + position_events(
                    positions@,
                    sample_pos,
                    feed + 1,
                    count as int,
                )) =~= events@ + position_events(positions@, sample_pos, feed + 1, count as int));
            }
            feed = feed + 1;
        }
        assert(events@ =~= all);
        assert(emitted@ =~= announced_after(objects, told).emitted);
    }
    assert(events@ == frame_events(objects, told));
    if unchanged && events.len() == 0 {
        return Vec::new();
    }
    let mut name_updates: Vec<NameUpdate> = Vec::new();
    let mut object_channels: Vec<ObjectChannel> = Vec::new();
    if !unchanged {
        let mut feed: usize = 0;
        while feed < count
            invariant
                feed <= count <= 8,
                name_updates@.len() == feed,
                forall|seen: int|
                    0 <= seen < feed ==> {
                        &&& (#[trigger] name_updates@[seen]).id == OBJECT_ID_BASE + seen
                        &&& name_updates@[seen].name@ == feed_name(seen)
                    },
            decreases count - feed,
        {
            name_updates.push(NameUpdate { id: OBJECT_ID_BASE + feed as u32, name: name_of(feed) });
            feed = feed + 1;
        }
        object_channels = declare(presentation, first_object_channel);
        *declared = Some(current);
    }
    let mut frames: Vec<MetadataFrame> = Vec::new();
    frames.push(
        MetadataFrame { events, object_channels, name_updates, sample_pos, ramp_duration: 0 },
    );
    frames
}

/// A frame announces every positioned object or none, and none without need.
pub proof fn announcements_are_complete(objects: ObjectsModel, told: Announced)
    ensures
        frame_events(objects, told).len() == 0 || frame_events(objects, told) == position_events(
            objects.positions,
            objects.sample_pos,
            0,
            objects.presentation.objects(),
        ),
        !positions_due(objects, told) ==> frame_events(objects, told).len() == 0,
{
}

/// Once told, the renderer is not told again: a frame that gives the same
/// objects the same positions announces nothing between heartbeats.
pub proof fn repeated_objects_are_silent(
    first: ObjectsModel,
    second: ObjectsModel,
    told: Announced,
)
    requires
        told.emitted.len() == MAX_SOURCES,
        second.presentation == first.presentation,
        second.positions == first.positions,
        second.first_object_channel == first.first_object_channel,
        !heartbeat_due(second.sample_rate, second.sample_pos, second.sample_count),
    ensures
        nothing_due(second, announced_after(first, told)),
        announced_after(second, announced_after(first, told)) == announced_after(first, told),
{
    let after = announced_after(first, told);
    let count = first.presentation.objects();
    if count > 0 {
        assert forall|feed: int|
            0 <= feed < count && position_of(first.positions, feed)
                is Some implies #[trigger] after.emitted[feed] == position_of(
            first.positions,
            feed,
        ) by {
            if !positions_due(first, told) {
                assert(!any_moved(first.positions, told.emitted, count));
                assert(told.emitted[feed] == position_of(first.positions, feed));
            }
        }
        assert(!any_moved(second.positions, after.emitted, count));
    }
}

/// The heartbeat does not miss a period: a frame that starts at a multiple of
/// the period, or less than its own length behind one, announces the objects.
pub proof fn heartbeat_follows_each_period(
    sample_rate: u32,
    sample_pos: u64,
    sample_count: usize,
    beat: int,
)
    requires
        sample_rate >= HEARTBEAT_HZ,
        0 <= beat <= sample_pos < beat + sample_count,
        beat % (sample_rate as int / HEARTBEAT_HZ as int) == 0,
    ensures
        heartbeat_due(sample_rate, sample_pos, sample_count),
{
    let period = sample_rate as int / HEARTBEAT_HZ as int;
    let behind = sample_pos as int - beat;
    lemma_mod_adds(beat, behind, period);
    lemma_mod_decreases(behind as nat, period as nat);
}

} // verus!
