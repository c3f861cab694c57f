//! Auro speaker layouts and the channel-input configurations that map onto
//! them.
//!
//! The numeric ids are the encoder's own. The names are labels only: no speaker
//! geometry is derived from them.

use crate::auro::table::{lemma_odd_names, lemma_shape, lemma_table, shape_of};
use crate::text::{decimal, decimal_text, number_below, parse_byte, same_text};
use vstd::prelude::*;
use vstd::slice::slice_subrange;
use vstd::string::{StrSliceExecFns, StringExecFns};

verus! {

/// An Auro speaker layout, by the id the bitstream uses.
#[derive(Clone, Copy, Debug, PartialEq, Eq, Hash, Structural)]
pub struct Layout(pub u32);

/// The conventional name of a layout, where the public tables know one.
pub open spec fn layout_name(id: u32) -> Option<Seq<char>> {
    match id {
        3 => Some("2.0"@),
        4 => Some("1.0"@),
        7 => Some("3.0"@),
        8 => Some("0.1"@),
        11 => Some("2.1"@),
        12 => Some("1.1"@),
        15 => Some("3.1"@),
        51 => Some("4.0"@),
        55 => Some("5.0"@),
        59 => Some("4.1"@),
        63 => Some("5.1"@),
        71 => Some("LCRS"@),
        119 => Some("6.0"@),
        127 => Some("6.1"@),
        435 => Some("7.0_no_C"@),
        439 => Some("7.0"@),
        443 => Some("7.1_no_C"@),
        447 => Some("7.1"@),
        1539 => Some("2.0_2H"@),
        1543 => Some("3.0_2H"@),
        1547 => Some("2.1_2H"@),
        1551 => Some("3.1_2H"@),
        1587 => Some("4.0_2H"@),
        1591 => Some("5.0_2H"@),
        1595 => Some("4.1_2H"@),
        1599 => Some("5.1_2H"@),
        1971 => Some("7.0_2H_no_C"@),
        1975 => Some("7.0_2H"@),
        1979 => Some("7.1_2H_no_C"@),
        1983 => Some("7.1_2H"@),
        3591 => Some("3.0_3H"@),
        3599 => Some("3.1_3H"@),
        26163 => Some("4.0_4H"@),
        26167 => Some("5.0_4H"@),
        26171 => Some("4.1_4H"@),
        26175 => Some("5.1_4H"@),
        26547 => Some("7.0_4H_no_C"@),
        26551 => Some("7.0_4H"@),
        26555 => Some("7.1_4H_no_C"@),
        26559 => Some("7.1_4H"@),
        28211 => Some("4.0_5H"@),
        28215 => Some("5.0_5H"@),
        28219 => Some("4.1_5H"@),
        28223 => Some("5.1_5H"@),
        28595 => Some("7.0_5H_no_C"@),
        28599 => Some("7.0_5H"@),
        28603 => Some("7.1_5H_no_C"@),
        28607 => Some("7.1_5H"@),
        30259 => Some("4.0_4H_1T"@),
        30263 => Some("5.0_4H_1T"@),
        30267 => Some("4.1_4H_1T"@),
        30271 => Some("5.1_4H_1T"@),
        30643 => Some("7.0_4H_1T_no_C"@),
        30647 => Some("7.0_4H_1T"@),
        30651 => Some("7.1_4H_1T_no_C"@),
        30655 => Some("7.1_4H_1T"@),
        32307 => Some("4.0_5H_1T"@),
        32311 => Some("5.0_5H_1T"@),
        32315 => Some("4.1_5H_1T"@),
        32319 => Some("5.1_5H_1T"@),
        32691 => Some("7.0_5H_1T_no_C"@),
        32695 => Some("7.0_5H_1T"@),
        32699 => Some("7.1_5H_1T_no_C"@),
        32703 => Some("7.1_5H_1T"@),
        805332543 => Some("5.1_4H_2T"@),
        805332927 => Some("7.1_4H_2T"@),
        805334591 => Some("5.1_5H_2T"@),
        805334975 => Some("7.1_5H_2T"@),
        1006659519 => Some("9.1_4H_2T"@),
        1006661567 => Some("9.1_5H_2T"@),
        2052 => Some("TestMix2.0"@),
        6148 => Some("TestMix3.0"@),
        _ => None,
    }
}

impl Layout {
    /// The layout's conventional name (`5.1_4H`, `7.1_5H_1T`, ...), or `None`
    /// for an id the public tables do not know.
    pub fn name(self) -> (name: Option<&'static str>)
        ensures
            match name {
                Some(text) => layout_name(self.0) == Some(text@),
                None => layout_name(self.0) is None,
            },
    {
        let name: &'static str = match self.0 {
            3 => "2.0",
            4 => "1.0",
            7 => "3.0",
            8 => "0.1",
            11 => "2.1",
            12 => "1.1",
            15 => "3.1",
            51 => "4.0",
            55 => "5.0",
            59 => "4.1",
            63 => "5.1",
            71 => "LCRS",
            119 => "6.0",
            127 => "6.1",
            435 => "7.0_no_C",
            439 => "7.0",
            443 => "7.1_no_C",
            447 => "7.1",
            1539 => "2.0_2H",
            1543 => "3.0_2H",
            1547 => "2.1_2H",
            1551 => "3.1_2H",
            1587 => "4.0_2H",
            1591 => "5.0_2H",
            1595 => "4.1_2H",
            1599 => "5.1_2H",
            1971 => "7.0_2H_no_C",
            1975 => "7.0_2H",
            1979 => "7.1_2H_no_C",
            1983 => "7.1_2H",
            3591 => "3.0_3H",
            3599 => "3.1_3H",
            26163 => "4.0_4H",
            26167 => "5.0_4H",
            26171 => "4.1_4H",
            26175 => "5.1_4H",
            26547 => "7.0_4H_no_C",
            26551 => "7.0_4H",
            26555 => "7.1_4H_no_C",
            26559 => "7.1_4H",
            28211 => "4.0_5H",
            28215 => "5.0_5H",
            28219 => "4.1_5H",
            28223 => "5.1_5H",
            28595 => "7.0_5H_no_C",
            28599 => "7.0_5H",
            28603 => "7.1_5H_no_C",
            28607 => "7.1_5H",
            30259 => "4.0_4H_1T",
            30263 => "5.0_4H_1T",
            30267 => "4.1_4H_1T",
            30271 => "5.1_4H_1T",
            30643 => "7.0_4H_1T_no_C",
            30647 => "7.0_4H_1T",
            30651 => "7.1_4H_1T_no_C",
            30655 => "7.1_4H_1T",
            32307 => "4.0_5H_1T",
            32311 => "5.0_5H_1T",
            32315 => "4.1_5H_1T",
            32319 => "5.1_5H_1T",
            32691 => "7.0_5H_1T_no_C",
            32695 => "7.0_5H_1T",
            32699 => "7.1_5H_1T_no_C",
            32703 => "7.1_5H_1T",
            805332543 => "5.1_4H_2T",
            805332927 => "7.1_4H_2T",
            805334591 => "5.1_5H_2T",
            805334975 => "7.1_5H_2T",
            1006659519 => "9.1_4H_2T",
            1006661567 => "9.1_5H_2T",
            2052 => "TestMix2.0",
            6148 => "TestMix3.0",
            _ => {
                return None;
            },
        };
        Some(name)
    }
}

/// The place of the first `letter` of `text` from `index` on.
pub open spec fn first_place(text: Seq<char>, letter: char, index: int) -> Option<int>
    decreases text.len() - index,
{
    if index >= text.len() {
        None
    } else if text[index] == letter {
        Some(index)
    } else {
        first_place(text, letter, index + 1)
    }
}

/// `text` up to the first `letter`, or all of it.
pub open spec fn part_before(text: Seq<char>, letter: char) -> Seq<char> {
    match first_place(text, letter, 0) {
        Some(place) => text.subrange(0, place),
        None => text,
    }
}

/// `text` behind the first `letter`, where there is one.
pub open spec fn part_behind(text: Seq<char>, letter: char) -> Option<Seq<char>> {
    match first_place(text, letter, 0) {
        Some(place) => Some(text.subrange(place + 1, text.len() as int)),
        None => None,
    }
}

/// Whether `text` ends with `ending`.
pub open spec fn ends_with(text: Seq<char>, ending: Seq<char>) -> bool {
    text.len() >= ending.len() && text.subrange(text.len() - ending.len(), text.len() as int)
        == ending
}

/// Streams of a floor of this many speakers, with or without a centre between
/// the seven.
pub open spec fn floor_streams(fronts: int, no_centre: bool) -> Option<Seq<u8>> {
    if fronts == 1 {
        Some(seq![2u8])
    } else if fronts == 2 {
        Some(seq![0u8, 1u8])
    } else if fronts == 3 {
        Some(seq![0u8, 1u8, 2u8])
    } else if fronts == 4 {
        Some(seq![0u8, 1u8, 4u8, 5u8])
    } else if fronts == 5 {
        Some(seq![0u8, 1u8, 2u8, 4u8, 5u8])
    } else if fronts == 6 {
        Some(seq![0u8, 1u8, 2u8, 4u8, 5u8, 6u8])
    } else if fronts == 7 && no_centre {
        Some(seq![0u8, 1u8, 4u8, 5u8, 7u8, 8u8])
    } else if fronts == 7 {
        Some(seq![0u8, 1u8, 2u8, 4u8, 5u8, 7u8, 8u8])
    } else {
        None
    }
}

/// Streams of one part of a name behind the bed.
pub open spec fn overhead_part(part: Seq<char>) -> Option<Seq<u8>> {
    if part == "2H"@ {
        Some(seq![9u8, 10u8])
    } else if part == "3H"@ {
        Some(seq![9u8, 10u8, 11u8])
    } else if part == "4H"@ {
        Some(seq![9u8, 10u8, 13u8, 14u8])
    } else if part == "5H"@ {
        Some(seq![9u8, 10u8, 11u8, 13u8, 14u8])
    } else if part == "1T"@ {
        Some(seq![12u8])
    } else if part == "2T"@ {
        Some(seq![12u8, 15u8])
    } else if part == "no"@ || part == "C"@ {
        Some(Seq::empty())
    } else {
        None
    }
}

/// Streams of the parts of a name behind the bed, joined by underscores.
pub open spec fn overhead_streams(parts: Seq<char>) -> Option<Seq<u8>>
    decreases parts.len(),
{
    proof {
        lemma_place(parts, '_', 0);
    }
    match overhead_part(part_before(parts, '_')) {
        None => None,
        Some(streams) => match part_behind(parts, '_') {
            None => Some(streams),
            Some(rest) => match overhead_streams(rest) {
                None => None,
                Some(others) => Some(streams + others),
            },
        },
    }
}

/// The streams that a name stands for: the floor, the LFE, then what the parts
/// behind the bed add. A name that does not follow this grammar has none.
pub open spec fn streams_of_name(name: Seq<char>) -> Option<Seq<u8>> {
    let bed = part_before(name, '_');
    match part_behind(bed, '.') {
        None => None,
        Some(lfe_text) => match (number_below(part_before(bed, '.'), 256), number_below(
            lfe_text,
            256,
        )) {
            (Some(fronts), Some(lfe)) => match floor_streams(fronts, ends_with(name, "_no_C"@)) {
                None => None,
                Some(floor) => {
                    let whole_bed = if lfe == 1 {
                        floor.push(3u8)
                    } else {
                        floor
                    };
                    match part_behind(name, '_') {
                        None => Some(whole_bed),
                        Some(parts) => match overhead_streams(parts) {
                            None => None,
                            Some(overhead) => Some(whole_bed + overhead),
                        },
                    }
                },
            },
            _ => None,
        },
    }
}

/// The streams that a layout holds, at most sixteen.
pub open spec fn layout_streams(id: u32) -> Option<Seq<u8>> {
    match layout_name(id) {
        None => None,
        Some(name) => match streams_of_name(name) {
            None => None,
            Some(streams) => Some(
                if streams.len() > 16 {
                    streams.take(16)
                } else {
                    streams
                },
            ),
        },
    }
}

/// The stream ids a layout is made of, in the order this crate reports
/// them: bed first, then heights, then the top.
#[derive(Clone, Copy, Debug, PartialEq, Eq)]
pub struct Streams {
    pub ids: [u8; 16],
    pub len: usize,
}

impl Streams {
    /// The stream ids.
    pub open spec fn list(&self) -> Seq<u8> {
        self.ids@.take(self.len as int)
    }

    /// The stream ids.
    pub fn as_slice(&self) -> (ids: &[u8])
        requires
            self.len <= 16,
        ensures
            ids@ == self.list(),
    {
        slice_subrange(self.ids.as_slice(), 0, self.len)
    }
}

/// A place that is found lies in the text, from where the search began.
pub proof fn lemma_place(text: Seq<char>, letter: char, index: int)
    requires
        0 <= index,
    ensures
        first_place(text, letter, index) matches Some(place) ==> index <= place < text.len()
            && text[place] == letter,
    decreases text.len() - index,
{
    if index < text.len() && text[index] != letter {
        lemma_place(text, letter, index + 1);
    }
}

/// The place of the first `letter` of `text`.
fn place_of(text: &str, letter: char) -> (place: Option<usize>)
    ensures
        match place {
            Some(place) => first_place(text@, letter, 0) == Some(place as int) && place
                < text@.len(),
            None => first_place(text@, letter, 0) is None,
        },
{
    let count: usize = text.unicode_len();
    let mut index: usize = 0;
    while index < count
        invariant
            count == text@.len(),
            index <= count,
            first_place(text@, letter, 0) == first_place(text@, letter, index as int),
        decreases count - index,
    {
        if text.get_char(index) == letter {
            return Some(index);
        }
        index = index + 1;
    }
    None
}

/// `text` cut at the first `letter`.
fn cut<'a>(text: &'a str, letter: char) -> (parts: (&'a str, Option<&'a str>))
    ensures
        parts.0@ == part_before(text@, letter),
        match parts.1 {
            Some(rest) => part_behind(text@, letter) == Some(rest@) && rest@.len() < text@.len(),
            None => part_behind(text@, letter) is None,
        },
{
    match place_of(text, letter) {
        Some(place) => {
            let count: usize = text.unicode_len();
            (text.substring_char(0, place), Some(text.substring_char(place + 1, count)))
        },
        None => (text, None),
    }
}

/// Appends the streams of one part of a name behind the bed.
fn push_overhead(streams: &mut Vec<u8>, part: &str) -> (known: bool)
    ensures
        known == overhead_part(part@) is Some,
        overhead_part(part@) matches Some(others) ==> final(streams)@ == old(streams)@ + others,
{
    let ghost before = streams@;
    if same_text(part, "2H") {
        streams.push(9);
        streams.push(10);
        assert(streams@ =~= before + seq![9u8, 10u8]);
        true
    } else if same_text(part, "3H") {
        streams.push(9);
        streams.push(10);
        streams.push(11);
        assert(streams@ =~= before + seq![9u8, 10u8, 11u8]);
        true
    } else if same_text(part, "4H") {
        streams.push(9);
        streams.push(10);
        streams.push(13);
        streams.push(14);
        assert(streams@ =~= before + seq![9u8, 10u8, 13u8, 14u8]);
        true
    } else if same_text(part, "5H") {
        streams.push(9);
        streams.push(10);
        streams.push(11);
        streams.push(13);
        streams.push(14);
        assert(streams@ =~= before + seq![9u8, 10u8, 11u8, 13u8, 14u8]);
        true
    } else if same_text(part, "1T") {
        streams.push(12);
        assert(streams@ =~= before + seq![12u8]);
        true
    } else if same_text(part, "2T") {
        streams.push(12);
        streams.push(15);
        assert(streams@ =~= before + seq![12u8, 15u8]);
        true
    } else if same_text(part, "no") || same_text(part, "C") {
        assert(streams@ =~= before + Seq::<u8>::empty());
        true
    } else {
        false
    }
}

/// The streams of a floor.
fn floor(fronts: u8, no_centre: bool) -> (streams: Option<Vec<u8>>)
    ensures
        match streams {
            Some(list) => floor_streams(fronts as int, no_centre) == Some(list@),
            None => floor_streams(fronts as int, no_centre) is None,
        },
{
    let mut list: Vec<u8> = Vec::new();
    match fronts {
        1 => {
            list.push(2);
        },
        2 => {
            list.push(0);
            list.push(1);
        },
        3 => {
            list.push(0);
            list.push(1);
            list.push(2);
        },
        4 => {
            list.push(0);
            list.push(1);
            list.push(4);
            list.push(5);
        },
        5 | 6 => {
            list.push(0);
            list.push(1);
            list.push(2);
            list.push(4);
            list.push(5);
            if fronts == 6 {
                list.push(6);
            }
        },
        7 => {
            list.push(0);
            list.push(1);
            if !no_centre {
                list.push(2);
            }
            list.push(4);
            list.push(5);
            list.push(7);
            list.push(8);
        },
        _ => {
            return None;
        },
    }
    assert(list@ =~= floor_streams(fronts as int, no_centre)->0);
    Some(list)
}

/// Whether a name says that its floor has no centre.
fn lacks_centre(name: &str) -> (lacks: bool)
    ensures
        lacks == ends_with(name@, "_no_C"@),
{
    proof {
        reveal_strlit("_no_C");
    }
    let count: usize = name.unicode_len();
    count >= 5 && same_text(name.substring_char(count - 5, count), "_no_C")
}

impl Layout {
    /// Which streams the layout holds, read off its name: `7.1_5H_1T` is
    /// L R C LFE Ls Rs Lb Rb, then HL HR HC HLs HRs, then T. `None` when
    /// the name is unknown or does not follow the bed/height/top grammar.
    pub fn streams(self) -> (streams: Option<Streams>)
        ensures
            match streams {
                Some(found) => {
                    &&& found.len <= 16
                    &&& layout_streams(self.0) == Some(found.list())
                    &&& forall|place: int| found.len <= place < 16 ==> found.ids@[place] == 0
                },
                None => layout_streams(self.0) is None,
            },
    {
        let name: &'static str = match self.name() {
            Some(name) => name,
            None => {
                return None;
            },
        };
        let (bed, parts) = cut(name, '_');
        let (fronts_text, lfe_text) = match cut(bed, '.') {
            (fronts, Some(lfe)) => (fronts, lfe),
            (_, None) => {
                return None;
            },
        };
        let (fronts, lfe) = match (parse_byte(fronts_text), parse_byte(lfe_text)) {
            (Some(fronts), Some(lfe)) => (fronts, lfe),
            _ => {
                return None;
            },
        };
        let mut list: Vec<u8> = match floor(fronts, lacks_centre(name)) {
            Some(list) => list,
            None => {
                return None;
            },
        };
        if lfe == 1 {
            list.push(3);
        }
        let ghost bed_list = list@;
        if let Some(behind) = parts {
            let mut rest: &str = behind;
            let mut more: bool = true;
            assert(list@ =~= bed_list + Seq::<u8>::empty());
            while more
                invariant
                    more ==> (overhead_streams(behind@) matches Some(all) ==> {
                        &&& overhead_streams(rest@) matches Some(others)
                        &&& bed_list + all == list@ + others
                    }),
                    more ==> (overhead_streams(behind@) is None ==> overhead_streams(
                        rest@,
                    ) is None),
                    !more ==> (overhead_streams(behind@) matches Some(all) && bed_list + all
                        == list@),
                    layout_name(self.0) == Some(name@),
                    part_behind(name@, '_') == Some(behind@),
                    streams_of_name(name@) == match overhead_streams(behind@) {
                        None => None,
                        Some(overhead) => Some(bed_list + overhead),
                    },
                decreases
                        if more {
                            rest@.len() + 1
                        } else {
                            0
                        },
            {
                let ghost before = list@;
                let (part, tail) = cut(rest, '_');
                if !push_overhead(&mut list, part) {
                    return None;
                }
                match tail {
                    Some(tail) => {
                        proof {
                            let added = overhead_part(part@)->0;
                            if let Some(others) = overhead_streams(tail@) {
                                assert(before + (added + others) =~= (before + added) + others);
                            }
                        }
                        rest = tail;
                    },
                    None => {
                        more = false;
                    },
                }
            }
        }
        let ghost whole = streams_of_name(name@)->0;
        assert(list@ =~= whole);
        let mut ids: [u8; 16] = [0; 16];
        let mut len: usize = 0;
        while len < 16 && len < list.len()
            invariant
                len <= 16,
                len <= list@.len(),
                forall|seen: int| 0 <= seen < len ==> ids@[seen] == list@[seen],
                forall|ahead: int| len <= ahead < 16 ==> ids@[ahead] == 0,
            decreases 16 - len,
        {
            ids[len] = list[len];
            len = len + 1;
        }
        let found = Streams { ids, len };
        assert(found.list() =~= if whole.len() > 16 {
            whole.take(16)
        } else {
            whole
        });
        Some(found)
    }
}

/// The label that a layout with these streams is catalogued under.
pub open spec fn codec_label(streams: Option<Seq<u8>>) -> Seq<char> {
    match streams {
        Some(list) => if list.len() == 10 {
            "Auro-3D-9.1"@
        } else if list.len() == 11 {
            "Auro-3D-10.1"@
        } else if list.len() == 12 {
            "Auro-3D-11.1"@
        } else if list.len() == 14 {
            "Auro-3D-13.1"@
        } else {
            "Auro-3D"@
        },
        None => "Auro-3D"@,
    }
}

/// Number of streams of `list` that satisfy `kind`.
pub open spec fn count_streams(list: Seq<u8>, kind: spec_fn(u8) -> bool) -> int
    decreases list.len(),
{
    if list.len() == 0 {
        0
    } else {
        count_streams(list.drop_last(), kind) + if kind(list.last()) {
            1int
        } else {
            0int
        }
    }
}

/// Number of LFE streams.
pub open spec fn lfe_count(list: Seq<u8>) -> int {
    count_streams(list, |id: u8| id == 3)
}

/// Number of streams above the floor that make a layout an Auro presentation.
pub open spec fn height_count(list: Seq<u8>) -> int {
    count_streams(list, |id: u8| 9 <= id <= 14)
}

/// Whether a part of a name stands for speakers above the floor.
pub open spec fn is_overhead(part: Seq<char>) -> bool {
    part.len() > 0 && (part.last() == 'H' || part.last() == 'T')
}

/// The number that a text spells, or 0.
pub open spec fn named_count(text: Seq<char>) -> int {
    match number_below(text, 256) {
        Some(number) => number,
        None => 0,
    }
}

/// Whether some part of a name behind the bed, of those joined by underscores,
/// stands for speakers above the floor.
pub open spec fn overhead_named(parts: Seq<char>) -> bool
    decreases parts.len(),
{
    proof {
        lemma_place(parts, '_', 0);
    }
    is_overhead(part_before(parts, '_')) || match part_behind(parts, '_') {
        Some(rest) => overhead_named(rest),
        None => false,
    }
}

/// Number of speakers above the floor that the parts of a name count.
pub open spec fn overhead_count(parts: Seq<char>) -> int
    decreases parts.len(),
{
    proof {
        lemma_place(parts, '_', 0);
    }
    let part = part_before(parts, '_');
    (if is_overhead(part) {
        named_count(part.drop_last())
    } else {
        0
    }) + match part_behind(parts, '_') {
        Some(rest) => overhead_count(rest),
        None => 0,
    }
}

/// Number of speakers on the floor that a name counts.
pub open spec fn floor_count(name: Seq<char>) -> int {
    let fronts = named_count(part_before(part_before(name, '_'), '.'));
    if ends_with(name, "_no_C"@) && fronts > 0 {
        fronts - 1
    } else {
        fronts
    }
}

/// Number of LFEs that a name counts.
pub open spec fn lfe_named(name: Seq<char>) -> int {
    match part_behind(part_before(name, '_'), '.') {
        Some(text) => named_count(text),
        None => 0,
    }
}

/// What a listener calls a layout of this name: the speakers that the room
/// needs before the dot, the LFE after it. A layout with nothing overhead is
/// called nothing.
pub open spec fn presentation_text(name: Seq<char>) -> Option<Seq<char>> {
    match part_behind(name, '_') {
        Some(parts) => if overhead_named(parts) {
            Some(
                "Auro "@ + decimal_text((floor_count(name) + overhead_count(parts)) as nat) + "."@
                    + decimal_text(lfe_named(name) as nat),
            )
        } else {
            None
        },
        None => None,
    }
}

/// What a listener calls a layout: nothing where the tables do not know its
/// name.
pub open spec fn presentation_of(id: u32) -> Option<Seq<char>> {
    match layout_name(id) {
        Some(name) => presentation_text(name),
        None => None,
    }
}

impl Layout {
    /// The label a decoded stream is catalogued under, by the channel count
    /// of the layout: `Auro-3D-13.1` for `7.1_5H_1T`, `Auro-3D-9.1` for
    /// `5.1_4H`, and the bare `Auro-3D` for the layouts with no common
    /// name.
    pub fn source_codec_label(self) -> (label: &'static str)
        ensures
            label@ == codec_label(layout_streams(self.0)),
    {
        match self.streams() {
            Some(streams) => match streams.len {
                10 => "Auro-3D-9.1",
                11 => "Auro-3D-10.1",
                12 => "Auro-3D-11.1",
                14 => "Auro-3D-13.1",
                _ => "Auro-3D",
            },
            None => "Auro-3D",
        }
    }

    /// What a listener calls this layout - `Auro 11.1`, `Auro 9.1` - for a host
    /// that wants to name the presentation on screen.
    ///
    /// Auro's number is the speakers the room needs: the floor and everything
    /// above it before the dot, the LFE after it. `None` for a layout with
    /// nothing overhead, and for one whose name the tables do not know.
    pub fn presentation_name(self) -> (text: Option<String>)
        ensures
            match text {
                Some(text) => presentation_of(self.0) == Some(text@),
                None => presentation_of(self.0) is None,
            },
    {
        let name: &'static str = match self.name() {
            Some(name) => name,
            None => {
                return None;
            },
        };
        let (bed, parts) = cut(name, '_');
        let behind: &str = match parts {
            Some(behind) => behind,
            None => {
                return None;
            },
        };
        proof {
            lemma_short_name(self.0);
        }
        let (overhead, above) = count_overhead(behind);
        if !overhead {
            return None;
        }
        let (fronts_text, lfe_text) = cut(bed, '.');
        let fronts: usize = count_or_zero(fronts_text);
        let floor: usize = if lacks_centre(name) && fronts > 0 {
            fronts - 1
        } else {
            fronts
        };
        let lfe: usize = match lfe_text {
            Some(text) => count_or_zero(text),
            None => 0,
        };
        let mut text: String = "Auro ".to_owned();
        text.append(decimal(floor + above).as_str());
        text.append(".");
        text.append(decimal(lfe).as_str());
        Some(text)
    }
}

/// No name in the table is long.
proof fn lemma_short_name(id: u32)
    ensures
        layout_name(id) matches Some(name) ==> name.len() <= 15,
{
    lemma_table(id);
    lemma_odd_names();
    if let Some(shape) = shape_of(id) {
        lemma_shape(shape.fronts, shape.lfe, shape.tail);
    }
}

/// The number that a text spells, or 0.
fn count_or_zero(text: &str) -> (count: usize)
    ensures
        count == named_count(text@),
        count < 256,
{
    match parse_byte(text) {
        Some(count) => count as usize,
        None => 0,
    }
}

/// Whether the parts of a name stand for speakers above the floor, and how many
/// they count.
fn count_overhead(parts: &str) -> (result: (bool, usize))
    requires
        parts@.len() <= 15,
    ensures
        result.0 == overhead_named(parts@),
        result.1 == overhead_count(parts@),
        result.1 <= 256 * parts@.len(),
    decreases parts@.len(),
{
    let (part, rest) = cut(parts, '_');
    let length: usize = part.unicode_len();
    let mut overhead: bool = false;
    let mut count: usize = 0;
    proof {
        lemma_place(parts@, '_', 0);
    }
    if length > 0 {
        let last: char = part.get_char(length - 1);
        if last == 'H' || last == 'T' {
            overhead = true;
            count = count_or_zero(part.substring_char(0, length - 1));
            assert(part@.subrange(0, length - 1) =~= part@.drop_last());
        }
    }
    match rest {
        Some(rest) => {
            let (more, others) = count_overhead(rest);
            (overhead || more, count + others)
        },
        None => (overhead, count),
    }
}

/// A channel-input configuration: which original layout was folded into
/// which carrier.
#[derive(Clone, Copy, Debug, PartialEq, Eq, Hash, Structural)]
pub struct ChannelConfig(pub u8);

/// The layout that a configuration restores.
pub open spec fn original_layout(config: u8) -> Option<Layout> {
    match config {
        1 => Some(Layout(55)),
        2 => Some(Layout(63)),
        8 => Some(Layout(71)),
        11 => Some(Layout(1587)),
        12 => Some(Layout(51)),
        15 => Some(Layout(1599)),
        20 => Some(Layout(26163)),
        30 => Some(Layout(26175)),
        40 => Some(Layout(30271)),
        50 => Some(Layout(32319)),
        54 => Some(Layout(26559)),
        62 => Some(Layout(32703)),
        64 => Some(Layout(3)),
        66 => Some(Layout(7)),
        67 => Some(Layout(119)),
        68 => Some(Layout(127)),
        69 => Some(Layout(439)),
        70 => Some(Layout(447)),
        71 => Some(Layout(26167)),
        72 => Some(Layout(30263)),
        73 => Some(Layout(32311)),
        74 => Some(Layout(26551)),
        75 => Some(Layout(1983)),
        76 => Some(Layout(30647)),
        77 => Some(Layout(30655)),
        78 => Some(Layout(32695)),
        128 => Some(Layout(4)),
        129 => Some(Layout(2052)),
        130 => Some(Layout(6148)),
        _ => None,
    }
}

/// The layout that carries a configuration.
pub open spec fn carrier_layout(config: u8) -> Option<Layout> {
    match config {
        1 | 8 | 11 | 12 | 66 => Some(Layout(3)),
        2 => Some(Layout(11)),
        15 | 30 | 40 | 50 | 68 | 70 => Some(Layout(63)),
        20 => Some(Layout(51)),
        54 | 62 | 75 | 77 => Some(Layout(447)),
        64 | 128 | 129 | 130 => Some(Layout(4)),
        67 | 69 | 71 | 72 | 73 => Some(Layout(55)),
        74 | 76 | 78 => Some(Layout(439)),
        _ => None,
    }
}

impl ChannelConfig {
    /// The layout the encoder was fed, i.e. what a full decode restores.
    pub fn original(self) -> (layout: Option<Layout>)
        ensures
            layout == original_layout(self.0),
    {
        let id: u32 = match self.0 {
            1 => 55,
            2 => 63,
            8 => 71,
            11 => 1587,
            12 => 51,
            15 => 1599,
            20 => 26163,
            30 => 26175,
            40 => 30271,
            50 => 32319,
            54 => 26559,
            62 => 32703,
            64 => 3,
            66 => 7,
            67 => 119,
            68 => 127,
            69 => 439,
            70 => 447,
            71 => 26167,
            72 => 30263,
            73 => 32311,
            74 => 26551,
            75 => 1983,
            76 => 30647,
            77 => 30655,
            78 => 32695,
            128 => 4,
            129 => 2052,
            130 => 6148,
            _ => {
                return None;
            },
        };
        Some(Layout(id))
    }

    /// The layout physically present in the PCM, i.e. what plays without a
    /// decoder.
    pub fn carrier(self) -> (layout: Option<Layout>)
        ensures
            layout == carrier_layout(self.0),
    {
        let id: u32 = match self.0 {
            1 | 8 | 11 | 12 | 66 => 3,
            2 => 11,
            15 | 30 | 40 | 50 | 68 | 70 => 63,
            20 => 51,
            54 | 62 | 75 | 77 => 447,
            64 | 128 | 129 | 130 => 4,
            67 | 69 | 71 | 72 | 73 => 55,
            74 | 76 | 78 => 439,
            _ => {
                return None;
            },
        };
        Some(Layout(id))
    }
}

/// A configuration names both of its layouts or neither, and the tables know
/// the names of both.
pub proof fn every_configuration_names_both_layouts(config: u8)
    ensures
        original_layout(config) is Some <==> carrier_layout(config) is Some,
        original_layout(config) matches Some(layout) ==> layout_name(layout.0) is Some,
        carrier_layout(config) matches Some(layout) ==> layout_name(layout.0) is Some,
{
}

} // verus!
