//! Laws of layouts.

use crate::auro::layout::{
    carrier_layout, codec_label, floor_streams, layout_name, layout_streams, lfe_count,
    count_streams, height_count, original_layout, presentation_of,
};
use crate::auro::table::{
    lemma_odd_names, lemma_shape, lemma_table, lemma_tail, shape_of, tail_lacks_centre,
    tail_limit, tail_streams, tail_text, Shape,
};
use crate::text::{decimal_text, digit};
use vstd::prelude::*;

verus! {

/// Where a stream plays: the floor, the height layer or the top.
pub open spec fn stream_layer(id: u8) -> int {
    if id <= 8 {
        0
    } else if id == 12 || id == 15 {
        2
    } else {
        1
    }
}

/// No stream plays below one that stands before it, none occurs twice, and an
/// LFE is the last on the floor.
pub open spec fn streams_ascend(list: Seq<u8>) -> bool {
    forall|left: int, right: int|
        0 <= left < right < list.len() ==> {
            &&& stream_layer(#[trigger] list[left]) <= stream_layer(#[trigger] list[right])
            &&& list[left] != list[right]
            &&& list[left] == 3 ==> stream_layer(list[right]) > 0
        }
}

/// The streams of a layout, by its shape.
spec fn shape_streams(shape: Shape) -> Option<Seq<u8>> {
    match floor_streams(shape.fronts, tail_lacks_centre(shape.tail)) {
        None => None,
        Some(floor) => Some(
            if shape.lfe == 1 {
                floor.push(3u8)
            } else {
                floor
            } + tail_streams(shape.tail),
        ),
    }
}

/// The streams of a layout are those of its shape.
proof fn lemma_streams(id: u32)
    ensures
        match shape_of(id) {
            Some(shape) => {
                &&& layout_streams(id) == shape_streams(shape)
                &&& shape_streams(shape) matches Some(list) ==> 1 <= list.len() <= 16
            },
            None => layout_streams(id) is None,
        },
{
    lemma_table(id);
    lemma_odd_names();
    if let Some(shape) = shape_of(id) {
        lemma_shape(shape.fronts, shape.lfe, shape.tail);
    }
}

/// The streams of a layout are reported in order: the floor first, with the LFE
/// last on it, then the height layer, then the top. There is at least one, and
/// none occurs twice.
pub proof fn streams_are_reported_in_order(id: u32)
    ensures
        layout_streams(id) matches Some(list) ==> 1 <= list.len() <= 16 && streams_ascend(list),
{
    lemma_table(id);
    lemma_streams(id);
}

/// The id that a layout of this shape has.
spec fn id_of_shape(shape: Shape) -> int {
    let floor: int = if shape.fronts == 0 {
        0
    } else if shape.fronts == 1 {
        4
    } else if shape.fronts == 2 {
        3
    } else if shape.fronts == 3 {
        7
    } else if shape.fronts == 4 {
        51
    } else if shape.fronts == 5 {
        55
    } else if shape.fronts == 6 {
        119
    } else if shape.fronts == 7 {
        439
    } else {
        201327031
    };
    let centre: int = if tail_lacks_centre(shape.tail) {
        4
    } else {
        0
    };
    floor - centre + 8 * shape.lfe + overhead_bits(tail_streams(shape.tail))
}

/// What the streams overhead add to an id.
spec fn overhead_bits(list: Seq<u8>) -> int {
    (if list.contains(9u8) {
        0x600int
    } else {
        0
    }) + (if list.contains(11u8) {
        0x800int
    } else {
        0
    }) + (if list.contains(13u8) {
        0x6000int
    } else {
        0
    }) + (if list.contains(15u8) {
        0x3000_0000int
    } else if list.contains(12u8) {
        0x1000int
    } else {
        0
    })
}

/// What the tails add to an id.
proof fn lemma_overhead_bits(tail: int)
    requires
        0 <= tail <= tail_limit(),
    ensures
        overhead_bits(tail_streams(tail)) == if tail == 2 || tail == 3 {
            0x600int
        } else if tail == 4 {
            0xE00int
        } else if tail == 5 || tail == 6 {
            0x6600int
        } else if tail == 7 || tail == 8 {
            0x6E00int
        } else if tail == 9 || tail == 10 {
            0x7600int
        } else if tail == 11 || tail == 12 {
            0x7E00int
        } else if tail == 13 {
            0x3000_6600int
        } else if tail == 14 {
            0x3000_6E00int
        } else {
            0int
        },
{
    let list = tail_streams(tail);
    if list.len() > 0 {
        assert(list[0] == 9);
        if list.len() > 2 {
            assert(list[2] == 11 || list[2] == 13);
        }
        if list.len() > 3 {
            assert(list[3] == 13 || list[3] == 14);
        }
        if list.len() > 4 {
            assert(list[4] == 14 || list[4] == 12);
        }
        if list.len() > 5 {
            assert(list[5] == 12 || list[5] == 15);
        }
        if list.len() > 6 {
            assert(list[6] == 15);
        }
    }
}

/// A layout's shape tells its id.
proof fn lemma_id_of_shape(id: u32)
    ensures
        shape_of(id) matches Some(shape) ==> id_of_shape(shape) == id,
{
    lemma_table(id);
    if let Some(shape) = shape_of(id) {
        lemma_overhead_bits(shape.tail);
    }
}

/// No two layouts share a name.
pub proof fn names_are_distinct(left: u32, right: u32)
    requires
        layout_name(left) is Some,
        layout_name(left) == layout_name(right),
    ensures
        left == right,
{
    lemma_table(left);
    lemma_table(right);
    lemma_odd_names();
    lemma_id_of_shape(left);
    lemma_id_of_shape(right);
    match (shape_of(left), shape_of(right)) {
        (Some(one), Some(other)) => {
            lemma_shape(one.fronts, one.lfe, one.tail);
            lemma_shape(other.fronts, other.lfe, other.tail);
            assert(one.fronts == other.fronts);
            assert(one.lfe == other.lfe);
            assert(tail_lacks_centre(one.tail) == tail_lacks_centre(other.tail));
            if one.tail > 0 && other.tail > 0 {
                lemma_tail(one.tail);
                lemma_tail(other.tail);
                assert(tail_text(one.tail) == tail_text(other.tail));
                assert(tail_streams(one.tail) == tail_streams(other.tail));
            }
        },
        (Some(one), None) => {
            lemma_shape(one.fronts, one.lfe, one.tail);
        },
        (None, Some(other)) => {
            lemma_shape(other.fronts, other.lfe, other.tail);
        },
        (None, None) => {},
    }
}

/// A layout whose streams are known is called by what they count: the speakers
/// before the dot, the LFE after it. It is called nothing where none of them
/// plays overhead.
pub proof fn presentations_count_the_streams(id: u32)
    ensures
        layout_streams(id) matches Some(list) ==> presentation_of(id) == if height_count(list)
            == 0 {
            None
        } else {
            Some(
                "Auro "@ + decimal_text((list.len() - lfe_count(list)) as nat) + "."@
                    + decimal_text(lfe_count(list) as nat),
            )
        },
{
    lemma_table(id);
    lemma_streams(id);
    if let Some(shape) = shape_of(id) {
        lemma_shape(shape.fronts, shape.lfe, shape.tail);
        if shape.tail > 0 {
            lemma_tail(shape.tail);
        }
        if let Some(list) = layout_streams(id) {
            let floor = floor_streams(shape.fronts, tail_lacks_centre(shape.tail))->0;
            lemma_counts(floor, shape);
        }
    }
}

/// How many streams of each kind a layout has.
proof fn lemma_counts(floor: Seq<u8>, shape: Shape)
    requires
        floor_streams(shape.fronts, tail_lacks_centre(shape.tail)) == Some(floor),
        0 <= shape.lfe <= 1,
        0 <= shape.tail <= tail_limit(),
    ensures
        ({
            let list = shape_streams(shape)->0;
            &&& lfe_count(list) == shape.lfe
            &&& height_count(list) == 0 <==> tail_streams(shape.tail).len() == 0
        }),
{
    let list = shape_streams(shape)->0;
    let is_lfe = |id: u8| id == 3;
    let is_height = |id: u8| 9 <= id <= 14;
    let tail = tail_streams(shape.tail);
    let bed = if shape.lfe == 1 {
        floor.push(3u8)
    } else {
        floor
    };
    lemma_none(floor, is_lfe);
    lemma_none(floor, is_height);
    lemma_none(tail, is_lfe);
    assert(floor.push(3u8).drop_last() =~= floor);
    assert(count_streams(floor.push(3u8), is_lfe) == 1);
    assert(count_streams(floor.push(3u8), is_height) == 0);
    lemma_joined_counts(bed, tail, is_lfe);
    lemma_joined_counts(bed, tail, is_height);
    if tail.len() > 0 {
        lemma_some(tail, is_height, 0);
    } else {
        assert(count_streams(tail, is_height) == 0);
    }
}

/// A list without a stream of a kind counts none.
proof fn lemma_none(list: Seq<u8>, kind: spec_fn(u8) -> bool)
    requires
        forall|place: int| 0 <= place < list.len() ==> !kind(#[trigger] list[place]),
    ensures
        count_streams(list, kind) == 0,
    decreases list.len(),
{
    if list.len() > 0 {
        lemma_none(list.drop_last(), kind);
    }
}

/// A list with a stream of a kind counts some.
proof fn lemma_some(list: Seq<u8>, kind: spec_fn(u8) -> bool, place: int)
    requires
        0 <= place < list.len(),
        kind(list[place]),
    ensures
        count_streams(list, kind) > 0,
    decreases list.len(),
{
    lemma_counts_nonnegative(list.drop_last(), kind);
    if place < list.len() - 1 {
        lemma_some(list.drop_last(), kind, place);
    }
}

/// A count is not negative.
proof fn lemma_counts_nonnegative(list: Seq<u8>, kind: spec_fn(u8) -> bool)
    ensures
        0 <= count_streams(list, kind),
    decreases list.len(),
{
    if list.len() > 0 {
        lemma_counts_nonnegative(list.drop_last(), kind);
    }
}

/// Two lists together count what they count alone.
proof fn lemma_joined_counts(left: Seq<u8>, right: Seq<u8>, kind: spec_fn(u8) -> bool)
    ensures
        count_streams(left + right, kind) == count_streams(left, kind) + count_streams(
            right,
            kind,
        ),
    decreases right.len(),
{
    if right.len() == 0 {
        assert(left + right =~= left);
    } else {
        assert((left + right).drop_last() =~= left + right.drop_last());
        lemma_joined_counts(left, right.drop_last(), kind);
    }
}

/// The catalogue label of a layout that a listener calls `Auro N.1`, for the
/// numbers that are catalogued.
pub open spec fn label_for(number: int) -> Seq<char> {
    if number == 9 {
        "Auro-3D-9.1"@
    } else if number == 10 {
        "Auro-3D-10.1"@
    } else if number == 11 {
        "Auro-3D-11.1"@
    } else {
        "Auro-3D-13.1"@
    }
}

/// What a listener calls a layout of this many speakers and one LFE.
pub open spec fn called(number: int) -> Seq<char> {
    if number == 9 {
        "Auro 9.1"@
    } else if number == 10 {
        "Auro 10.1"@
    } else if number == 11 {
        "Auro 11.1"@
    } else {
        "Auro 13.1"@
    }
}

/// The catalogue label and the presentation's name agree: a layout that a
/// listener calls `Auro N.1` is catalogued as `Auro-3D-N.1`, for N of 9, 10, 11
/// and 13. The bare label is that of the layouts without streams or with
/// another number of them.
pub proof fn labels_agree_with_presentations(id: u32, number: int)
    requires
        number == 9 || number == 10 || number == 11 || number == 13,
    ensures
        presentation_of(id) == Some(called(number)) ==> codec_label(layout_streams(id))
            == label_for(number),
        codec_label(layout_streams(id)) == "Auro-3D"@ <==> (layout_streams(id) matches Some(list)
            ==> list.len() != 10 && list.len() != 11 && list.len() != 12 && list.len() != 14),
{
    reveal_strlit("Auro-3D");
    reveal_strlit("Auro-3D-9.1");
    reveal_strlit("Auro-3D-10.1");
    reveal_strlit("Auro-3D-11.1");
    reveal_strlit("Auro-3D-13.1");
    let label = codec_label(layout_streams(id));
    assert(label.len() == 7 <==> label == "Auro-3D"@);
    if presentation_of(id) == Some(called(number)) {
        lemma_table(id);
        lemma_streams(id);
        lemma_odd_names();
        let shape = shape_of(id)->0;
        lemma_shape(shape.fronts, shape.lfe, shape.tail);
        if shape.tail > 0 {
            lemma_tail(shape.tail);
        }
        let centre: int = if tail_lacks_centre(shape.tail) && shape.fronts > 0 {
            1
        } else {
            0
        };
        let speakers = shape.fronts - centre + tail_streams(shape.tail).len();
        lemma_called(speakers, shape.lfe, number);
        presentations_count_the_streams(id);
    }
}

/// What is called `Auro N.1` has N speakers and one LFE.
proof fn lemma_called(speakers: int, lfe: int, number: int)
    requires
        0 <= speakers < 100,
        0 <= lfe <= 1,
        number == 9 || number == 10 || number == 11 || number == 13,
        "Auro "@ + decimal_text(speakers as nat) + "."@ + decimal_text(lfe as nat) == called(
            number,
        ),
    ensures
        speakers == number,
        lfe == 1,
{
    reveal_strlit("Auro ");
    reveal_strlit(".");
    reveal_strlit("Auro 9.1");
    reveal_strlit("Auro 10.1");
    reveal_strlit("Auro 11.1");
    reveal_strlit("Auro 13.1");
    reveal_with_fuel(decimal_text, 3);
    let text = "Auro "@ + decimal_text(speakers as nat) + "."@ + decimal_text(lfe as nat);
    assert(text.last() == digit(lfe));
    assert(text[5] == decimal_text(speakers as nat)[0]);
    if speakers >= 10 {
        assert(text[6] == decimal_text(speakers as nat)[1]);
        assert(text.len() == 9);
    } else {
        assert(text.len() == 8);
    }
}

/// Every stream of `inner` is among those of `outer`.
pub open spec fn among(inner: Seq<u8>, outer: Seq<u8>) -> bool {
    forall|place: int| 0 <= place < inner.len() ==> outer.contains(#[trigger] inner[place])
}

/// The bits of a carrier's id are among those of the layout that it carries.
proof fn lemma_carrier_bits(config: u8)
    requires
        config != 64,
    ensures
        match (carrier_layout(config), original_layout(config)) {
            (Some(carrier), Some(original)) => carrier.0 & original.0 == carrier.0,
            _ => true,
        },
{
    assert(3u32 & 55u32 == 3u32
        && 11u32 & 63u32 == 11u32
        && 3u32 & 71u32 == 3u32
        && 3u32 & 1587u32 == 3u32
        && 3u32 & 51u32 == 3u32
        && 63u32 & 1599u32 == 63u32
        && 51u32 & 26163u32 == 51u32
        && 63u32 & 26175u32 == 63u32
        && 63u32 & 30271u32 == 63u32
        && 63u32 & 32319u32 == 63u32
        && 447u32 & 26559u32 == 447u32
        && 447u32 & 32703u32 == 447u32
        && 3u32 & 7u32 == 3u32
        && 55u32 & 119u32 == 55u32
        && 63u32 & 127u32 == 63u32
        && 55u32 & 439u32 == 55u32
        && 63u32 & 447u32 == 63u32
        && 55u32 & 26167u32 == 55u32
        && 55u32 & 30263u32 == 55u32
        && 55u32 & 32311u32 == 55u32
        && 439u32 & 26551u32 == 439u32
        && 447u32 & 1983u32 == 447u32
        && 439u32 & 30647u32 == 439u32
        && 447u32 & 30655u32 == 447u32
        && 439u32 & 32695u32 == 439u32
        && 4u32 & 4u32 == 4u32
        && 4u32 & 2052u32 == 4u32
        && 4u32 & 6148u32 == 4u32) by (bit_vector);
}

/// The streams of a layout of a shape that is a floor of the shape `other`.
proof fn lemma_floor_within(shape: Shape, other: Shape)
    requires
        shape.tail == 0,
        0 <= shape.lfe <= other.lfe <= 1,
        0 <= other.tail <= tail_limit(),
        !tail_lacks_centre(other.tail),
        2 <= shape.fronts <= other.fronts <= 7 || shape.fronts == other.fronts == 1,
        shape.fronts == 3 ==> other.fronts != 4,
        shape.fronts == 6 ==> other.fronts == 6,
        shape_streams(shape) is Some,
    ensures
        shape_streams(other) matches Some(outer) ==> {
            &&& shape_streams(shape)->0.len() <= outer.len()
            &&& among(shape_streams(shape)->0, outer)
        },
{
    let inner = shape_streams(shape)->0;
    if let Some(outer) = shape_streams(other) {
        let floor = floor_streams(other.fronts, false)->0;
        assert forall|place: int| 0 <= place < inner.len() implies outer.contains(
            #[trigger] inner[place],
        ) by {
            let id = inner[place];
            let found: int = if id <= 1 {
                id as int
            } else if id == 2 {
                if other.fronts == 1 {
                    0
                } else {
                    2
                }
            } else if id == 3 {
                floor.len() as int
            } else if id <= 5 {
                if other.fronts == 4 {
                    id - 2
                } else {
                    id - 1
                }
            } else if id == 6 {
                5
            } else {
                id - 2
            };
            assert(outer[found] == id);
        }
    }
}

/// A carrier's shape is a floor within the shape that it carries.
proof fn lemma_carrier_shapes(config: u8)
    ensures
        match (carrier_layout(config), original_layout(config)) {
            (Some(carrier), Some(original)) => {
                &&& shape_of(carrier.0) matches Some(shape)
                &&& shape.tail == 0
                &&& 1 <= shape.fronts <= 7
                &&& 0 <= shape.lfe <= 1
                &&& config == 64 ==> shape.fronts == 1 && shape.lfe == 0 && original.0 == 3
                &&& config != 64 ==> (shape_of(original.0) matches Some(other) ==> {
                    &&& shape.lfe <= other.lfe
                    &&& !tail_lacks_centre(other.tail)
                    &&& 2 <= shape.fronts <= other.fronts <= 7 || shape.fronts == other.fronts == 1
                    &&& shape.fronts == 3 ==> other.fronts != 4
                    &&& shape.fronts == 6 ==> other.fronts == 6
                })
            },
            _ => true,
        },
{
}

/// A carrier's streams are known and all on the floor, so that it is no
/// presentation of its own. Its speakers are among those of the layout that it
/// carries, in the ids' bits and, where the tables know them, in the streams;
/// only configuration 64 folds left and right into a centre.
pub proof fn carriers_lie_in_their_originals(config: u8)
    ensures
        match (carrier_layout(config), original_layout(config)) {
            (Some(carrier), Some(original)) => {
                &&& layout_streams(carrier.0) matches Some(inner)
                &&& presentation_of(carrier.0) is None
                &&& forall|place: int|
                    0 <= place < inner.len() ==> stream_layer(#[trigger] inner[place]) == 0
                &&& config != 64 ==> carrier.0 & original.0 == carrier.0
                &&& layout_streams(original.0) matches Some(outer) ==> {
                    &&& inner.len() <= outer.len()
                    &&& config != 64 ==> among(inner, outer)
                }
            },
            _ => true,
        },
{
    if let Some(carrier) = carrier_layout(config) {
        if let Some(original) = original_layout(config) {
            lemma_table(carrier.0);
            lemma_table(original.0);
            lemma_streams(carrier.0);
            lemma_streams(original.0);
            let shape = shape_of(carrier.0)->0;
            lemma_shape(shape.fronts, shape.lfe, shape.tail);
            if config != 64 {
                lemma_carrier_bits(config);
            }
            lemma_carrier_shapes(config);
            if let Some(other) = shape_of(original.0) {
                if config != 64 {
                    lemma_floor_within(shape, other);
                }
            }
        }
    }
}

/// What each configuration is called for: the name of the layout that it
/// restores, and of the one that carries it.
pub open spec fn configuration_names(config: u8) -> Option<(Seq<char>, Seq<char>)> {
    match config {
        1 => Some(("5.0"@, "2.0"@)),
        2 => Some(("5.1"@, "2.1"@)),
        8 => Some(("LCRS"@, "2.0"@)),
        11 => Some(("4.0_2H"@, "2.0"@)),
        12 => Some(("4.0"@, "2.0"@)),
        15 => Some(("5.1_2H"@, "5.1"@)),
        20 => Some(("4.0_4H"@, "4.0"@)),
        30 => Some(("5.1_4H"@, "5.1"@)),
        40 => Some(("5.1_4H_1T"@, "5.1"@)),
        50 => Some(("5.1_5H_1T"@, "5.1"@)),
        54 => Some(("7.1_4H"@, "7.1"@)),
        62 => Some(("7.1_5H_1T"@, "7.1"@)),
        64 => Some(("2.0"@, "1.0"@)),
        66 => Some(("3.0"@, "2.0"@)),
        67 => Some(("6.0"@, "5.0"@)),
        68 => Some(("6.1"@, "5.1"@)),
        69 => Some(("7.0"@, "5.0"@)),
        70 => Some(("7.1"@, "5.1"@)),
        71 => Some(("5.0_4H"@, "5.0"@)),
        72 => Some(("5.0_4H_1T"@, "5.0"@)),
        73 => Some(("5.0_5H_1T"@, "5.0"@)),
        74 => Some(("7.0_4H"@, "7.0"@)),
        75 => Some(("7.1_2H"@, "7.1"@)),
        76 => Some(("7.0_4H_1T"@, "7.0"@)),
        77 => Some(("7.1_4H_1T"@, "7.1"@)),
        78 => Some(("7.0_5H_1T"@, "7.0"@)),
        128 => Some(("1.0"@, "1.0"@)),
        129 => Some(("TestMix2.0"@, "1.0"@)),
        130 => Some(("TestMix3.0"@, "1.0"@)),
        _ => None,
    }
}

/// A configuration restores the layout that it is called for from the carrier
/// that it is called for, and there is no other configuration.
pub proof fn configurations_restore_what_they_are_called_for(config: u8)
    ensures
        match configuration_names(config) {
            Some((original, carrier)) => {
                &&& original_layout(config) matches Some(layout)
                &&& layout_name(layout.0) == Some(original)
                &&& carrier_layout(config) matches Some(floor)
                &&& layout_name(floor.0) == Some(carrier)
            },
            None => original_layout(config) is None && carrier_layout(config) is None,
        },
{
}

/// What a stream weighs in an id where it is in the list.
pub open spec fn stream_weight(list: Seq<u8>, stream: u8, weight: int) -> int {
    if list.contains(stream) {
        weight
    } else {
        0
    }
}

/// The id of a layout says which streams it holds: each has a bit of its own, in
/// the order L, R, C, LFE, Ls, Rs, Cs, Lb, Rb, HL, HR, HC, T, HLs, HRs. A second
/// top moves the top to two bits further up.
pub proof fn ids_say_which_streams_are_held(id: u32)
    ensures
        layout_streams(id) matches Some(list) ==> {
            let two_tops = list.contains(15u8);
            &&& id == stream_weight(list, 0, 1) + stream_weight(list, 1, 2) + stream_weight(
                list,
                2,
                4,
            ) + stream_weight(list, 3, 8) + stream_weight(list, 4, 16) + stream_weight(list, 5, 32)
                + stream_weight(list, 6, 64) + stream_weight(list, 7, 128) + stream_weight(
                list,
                8,
                256,
            ) + stream_weight(list, 9, 512) + stream_weight(list, 10, 1024) + stream_weight(
                list,
                11,
                2048,
            ) + stream_weight(
                list,
                12,
                if two_tops {
                    268435456
                } else {
                    4096
                },
            ) + stream_weight(list, 13, 8192) + stream_weight(list, 14, 16384) + stream_weight(
                list,
                15,
                536870912,
            )
            &&& forall|place: int| 0 <= place < list.len() ==> #[trigger] list[place] <= 15
        },
{
    lemma_table(id);
    lemma_streams(id);
    lemma_id_of_shape(id);
    if let Some(shape) = shape_of(id) {
        if let Some(list) = layout_streams(id) {
            let floor = floor_streams(shape.fronts, tail_lacks_centre(shape.tail))->0;
            let tail = tail_streams(shape.tail);
            let bed = if shape.lfe == 1 {
                floor.push(3u8)
            } else {
                floor
            };
            assert(list == bed + tail);
            lemma_tail_members(shape.tail);
            lemma_floor_members(floor, shape.fronts, tail_lacks_centre(shape.tail));
            lemma_overhead_bits(shape.tail);
            assert forall|stream: u8| #[trigger] list.contains(stream) == (floor.contains(stream)
                || tail.contains(stream) || stream == 3 && shape.lfe == 1) by {
                if floor.contains(stream) {
                    let place = choose|place: int|
                        0 <= place < floor.len() && floor[place] == stream;
                    assert(list[place] == stream);
                }
                if tail.contains(stream) {
                    let place = choose|place: int| 0 <= place < tail.len() && tail[place] == stream;
                    assert(list[bed.len() + place] == stream);
                }
                if stream == 3 && shape.lfe == 1 {
                    assert(list[floor.len() as int] == 3);
                }
                if list.contains(stream) {
                    let place = choose|place: int| 0 <= place < list.len() && list[place] == stream;
                    if place < floor.len() {
                        assert(floor[place] == stream);
                    } else if place >= bed.len() {
                        assert(tail[place - bed.len()] == stream);
                    }
                }
            }
        }
    }
}

/// Which streams a tail holds.
proof fn lemma_tail_members(tail: int)
    requires
        0 <= tail <= tail_limit(),
    ensures
        ({
            let list = tail_streams(tail);
            &&& forall|stream: u8| #[trigger] list.contains(stream) ==> 9 <= stream <= 15
            &&& list.contains(9u8) == (tail >= 2)
            &&& list.contains(10u8) == (tail >= 2)
            &&& list.contains(11u8) == (tail == 4 || tail == 7 || tail == 8 || tail == 11 || tail
                == 12 || tail == 14)
            &&& list.contains(13u8) == (tail >= 5)
            &&& list.contains(14u8) == (tail >= 5)
            &&& list.contains(12u8) == (tail >= 9)
            &&& list.contains(15u8) == (tail >= 13)
        }),
{
    let list = tail_streams(tail);
    if list.len() > 0 {
        assert(list[0] == 9 && list[1] == 10);
        if list.len() > 2 {
            assert(list[2] == 11 || list[2] == 13);
        }
        if list.len() > 3 {
            assert(list[3] == 13 || list[3] == 14);
        }
        if list.len() > 4 {
            assert(list[4] == 14 || list[4] == 12);
        }
        if list.len() > 5 {
            assert(list[5] == 12 || list[5] == 15);
        }
        if list.len() > 6 {
            assert(list[6] == 15);
        }
    }
}

/// Which streams a floor holds.
proof fn lemma_floor_members(floor: Seq<u8>, fronts: int, no_centre: bool)
    requires
        floor_streams(fronts, no_centre) == Some(floor),
    ensures
        forall|stream: u8| #[trigger] floor.contains(stream) ==> stream <= 8 && stream != 3,
        floor.contains(0u8) == (fronts >= 2),
        floor.contains(1u8) == (fronts >= 2),
        floor.contains(2u8) == (fronts != 2 && fronts != 4 && !(fronts == 7 && no_centre)),
        floor.contains(4u8) == (fronts >= 4),
        floor.contains(5u8) == (fronts >= 4),
        floor.contains(6u8) == (fronts == 6),
        floor.contains(7u8) == (fronts == 7),
        floor.contains(8u8) == (fronts == 7),
{
    assert(floor[0] == if fronts == 1 {
        2u8
    } else {
        0u8
    });
    if floor.len() > 1 {
        assert(floor[1] == 1);
    }
    if floor.len() > 2 {
        assert(floor[2] == 2 || floor[2] == 4);
    }
    if floor.len() > 3 {
        assert(floor[3] == 4 || floor[3] == 5);
    }
    if floor.len() > 4 {
        assert(floor[4] == 5 || floor[4] == 7);
    }
    if floor.len() > 5 {
        assert(floor[5] == 6 || floor[5] == 7 || floor[5] == 8);
    }
    if floor.len() > 6 {
        assert(floor[6] == 8);
    }
}

/// Where a stream stands among others: on the floor in the order of the ids, with
/// the LFE last, then the heights and then the tops in the order of theirs.
pub open spec fn stream_rank(stream: u8) -> int {
    if stream == 3 {
        9
    } else if stream <= 8 {
        stream as int
    } else if stream == 12 || stream == 15 {
        stream as int + 20
    } else {
        stream as int + 10
    }
}

/// The streams of a layout are listed by rank, each once.
pub proof fn streams_are_listed_by_rank(id: u32, left: int, right: int)
    ensures
        layout_streams(id) matches Some(list) ==> (0 <= left < right < list.len() ==> stream_rank(
            list[left],
        ) < stream_rank(list[right])),
{
    lemma_table(id);
    lemma_streams(id);
    if let Some(shape) = shape_of(id) {
        if let Some(list) = layout_streams(id) {
            if 0 <= left < right < list.len() {
                let floor = floor_streams(shape.fronts, tail_lacks_centre(shape.tail))->0;
                let tail = tail_streams(shape.tail);
                let bed = if shape.lfe == 1 {
                    floor.push(3u8)
                } else {
                    floor
                };
                assert(list == bed + tail);
                lemma_floor_rank(floor, shape.fronts, tail_lacks_centre(shape.tail));
                lemma_tail_rank(shape.tail);
                if right >= bed.len() {
                    assert(list[right] == tail[right - bed.len()]);
                }
                if left >= bed.len() {
                    assert(list[left] == tail[left - bed.len()]);
                }
            }
        }
    }
}

/// The streams of a floor ascend.
proof fn lemma_floor_rank(floor: Seq<u8>, fronts: int, no_centre: bool)
    requires
        floor_streams(fronts, no_centre) == Some(floor),
    ensures
        forall|left: int, right: int|
            0 <= left < right < floor.len() ==> #[trigger] floor[left] < #[trigger] floor[right],
        forall|place: int|
            0 <= place < floor.len() ==> #[trigger] floor[place] <= 8 && floor[place] != 3,
{
}

/// The streams of a tail ascend by rank.
proof fn lemma_tail_rank(tail: int)
    requires
        0 <= tail <= tail_limit(),
    ensures
        forall|left: int, right: int|
            0 <= left < right < tail_streams(tail).len() ==> stream_rank(
                #[trigger] tail_streams(tail)[left],
            ) < stream_rank(#[trigger] tail_streams(tail)[right]),
        forall|place: int|
            0 <= place < tail_streams(tail).len() ==> #[trigger] tail_streams(tail)[place] >= 9,
{
}

} // verus!
