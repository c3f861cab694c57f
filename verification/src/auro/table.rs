//! What the names in the table of layouts are made of.
//!
//! A name is a bed of two numbers and, where the layout has more to it, a tail
//! of parts behind it. What follows from a name is worked out from its bed and
//! its tail here, once for all layouts.

use crate::auro::layout::{
    ends_with, first_place, floor_streams, is_overhead, layout_name, named_count, overhead_count,
    overhead_named, overhead_part, overhead_streams, part_before, part_behind, streams_of_name,
};
use crate::text::{digit, digits_value, is_digit, number_below, unsigned_digits};
use vstd::prelude::*;

verus! {

/// The tails that names have; none has the number 0.
pub open spec fn tail_text(tail: int) -> Seq<char> {
    if tail == 1 {
        "no_C"@
    } else if tail == 2 {
        "2H"@
    } else if tail == 3 {
        "2H_no_C"@
    } else if tail == 4 {
        "3H"@
    } else if tail == 5 {
        "4H"@
    } else if tail == 6 {
        "4H_no_C"@
    } else if tail == 7 {
        "5H"@
    } else if tail == 8 {
        "5H_no_C"@
    } else if tail == 9 {
        "4H_1T"@
    } else if tail == 10 {
        "4H_1T_no_C"@
    } else if tail == 11 {
        "5H_1T"@
    } else if tail == 12 {
        "5H_1T_no_C"@
    } else if tail == 13 {
        "4H_2T"@
    } else if tail == 14 {
        "5H_2T"@
    } else {
        Seq::empty()
    }
}

/// Number of tails.
pub open spec fn tail_limit() -> int {
    14
}

/// The streams that a tail adds.
pub open spec fn tail_streams(tail: int) -> Seq<u8> {
    if tail == 1 {
        Seq::<u8>::empty()
    } else if tail == 2 {
        seq![9u8, 10u8]
    } else if tail == 3 {
        seq![9u8, 10u8]
    } else if tail == 4 {
        seq![9u8, 10u8, 11u8]
    } else if tail == 5 {
        seq![9u8, 10u8, 13u8, 14u8]
    } else if tail == 6 {
        seq![9u8, 10u8, 13u8, 14u8]
    } else if tail == 7 {
        seq![9u8, 10u8, 11u8, 13u8, 14u8]
    } else if tail == 8 {
        seq![9u8, 10u8, 11u8, 13u8, 14u8]
    } else if tail == 9 {
        seq![9u8, 10u8, 13u8, 14u8, 12u8]
    } else if tail == 10 {
        seq![9u8, 10u8, 13u8, 14u8, 12u8]
    } else if tail == 11 {
        seq![9u8, 10u8, 11u8, 13u8, 14u8, 12u8]
    } else if tail == 12 {
        seq![9u8, 10u8, 11u8, 13u8, 14u8, 12u8]
    } else if tail == 13 {
        seq![9u8, 10u8, 13u8, 14u8, 12u8, 15u8]
    } else if tail == 14 {
        seq![9u8, 10u8, 11u8, 13u8, 14u8, 12u8, 15u8]
    } else {
        Seq::empty()
    }
}

/// Whether a tail says that the floor has no centre.
pub open spec fn tail_lacks_centre(tail: int) -> bool {
    tail == 1 || tail == 3 || tail == 6 || tail == 8 || tail == 10 || tail == 12
}

/// The name with this bed and this tail.
pub open spec fn shape_name(fronts: int, lfe: int, tail: int) -> Seq<char> {
    let bed = seq![digit(fronts), '.', digit(lfe)];
    if tail == 0 {
        bed
    } else {
        bed + seq!['_'] + tail_text(tail)
    }
}

/// The fronts, the LFEs and the tail of a layout's name.
#[verifier::ext_equal]
pub struct Shape {
    pub fronts: int,
    pub lfe: int,
    pub tail: int,
}

/// Layouts whose name has a bed and a tail.
pub open spec fn shape_of(id: u32) -> Option<Shape> {
    match id {
        3 => Some(Shape { fronts: 2, lfe: 0, tail: 0 }),
        4 => Some(Shape { fronts: 1, lfe: 0, tail: 0 }),
        7 => Some(Shape { fronts: 3, lfe: 0, tail: 0 }),
        8 => Some(Shape { fronts: 0, lfe: 1, tail: 0 }),
        11 => Some(Shape { fronts: 2, lfe: 1, tail: 0 }),
        12 => Some(Shape { fronts: 1, lfe: 1, tail: 0 }),
        15 => Some(Shape { fronts: 3, lfe: 1, tail: 0 }),
        51 => Some(Shape { fronts: 4, lfe: 0, tail: 0 }),
        55 => Some(Shape { fronts: 5, lfe: 0, tail: 0 }),
        59 => Some(Shape { fronts: 4, lfe: 1, tail: 0 }),
        63 => Some(Shape { fronts: 5, lfe: 1, tail: 0 }),
        119 => Some(Shape { fronts: 6, lfe: 0, tail: 0 }),
        127 => Some(Shape { fronts: 6, lfe: 1, tail: 0 }),
        435 => Some(Shape { fronts: 7, lfe: 0, tail: 1 }),
        439 => Some(Shape { fronts: 7, lfe: 0, tail: 0 }),
        443 => Some(Shape { fronts: 7, lfe: 1, tail: 1 }),
        447 => Some(Shape { fronts: 7, lfe: 1, tail: 0 }),
        1539 => Some(Shape { fronts: 2, lfe: 0, tail: 2 }),
        1543 => Some(Shape { fronts: 3, lfe: 0, tail: 2 }),
        1547 => Some(Shape { fronts: 2, lfe: 1, tail: 2 }),
        1551 => Some(Shape { fronts: 3, lfe: 1, tail: 2 }),
        1587 => Some(Shape { fronts: 4, lfe: 0, tail: 2 }),
        1591 => Some(Shape { fronts: 5, lfe: 0, tail: 2 }),
        1595 => Some(Shape { fronts: 4, lfe: 1, tail: 2 }),
        1599 => Some(Shape { fronts: 5, lfe: 1, tail: 2 }),
        1971 => Some(Shape { fronts: 7, lfe: 0, tail: 3 }),
        1975 => Some(Shape { fronts: 7, lfe: 0, tail: 2 }),
        1979 => Some(Shape { fronts: 7, lfe: 1, tail: 3 }),
        1983 => Some(Shape { fronts: 7, lfe: 1, tail: 2 }),
        3591 => Some(Shape { fronts: 3, lfe: 0, tail: 4 }),
        3599 => Some(Shape { fronts: 3, lfe: 1, tail: 4 }),
        26163 => Some(Shape { fronts: 4, lfe: 0, tail: 5 }),
        26167 => Some(Shape { fronts: 5, lfe: 0, tail: 5 }),
        26171 => Some(Shape { fronts: 4, lfe: 1, tail: 5 }),
        26175 => Some(Shape { fronts: 5, lfe: 1, tail: 5 }),
        26547 => Some(Shape { fronts: 7, lfe: 0, tail: 6 }),
        26551 => Some(Shape { fronts: 7, lfe: 0, tail: 5 }),
        26555 => Some(Shape { fronts: 7, lfe: 1, tail: 6 }),
        26559 => Some(Shape { fronts: 7, lfe: 1, tail: 5 }),
        28211 => Some(Shape { fronts: 4, lfe: 0, tail: 7 }),
        28215 => Some(Shape { fronts: 5, lfe: 0, tail: 7 }),
        28219 => Some(Shape { fronts: 4, lfe: 1, tail: 7 }),
        28223 => Some(Shape { fronts: 5, lfe: 1, tail: 7 }),
        28595 => Some(Shape { fronts: 7, lfe: 0, tail: 8 }),
        28599 => Some(Shape { fronts: 7, lfe: 0, tail: 7 }),
        28603 => Some(Shape { fronts: 7, lfe: 1, tail: 8 }),
        28607 => Some(Shape { fronts: 7, lfe: 1, tail: 7 }),
        30259 => Some(Shape { fronts: 4, lfe: 0, tail: 9 }),
        30263 => Some(Shape { fronts: 5, lfe: 0, tail: 9 }),
        30267 => Some(Shape { fronts: 4, lfe: 1, tail: 9 }),
        30271 => Some(Shape { fronts: 5, lfe: 1, tail: 9 }),
        30643 => Some(Shape { fronts: 7, lfe: 0, tail: 10 }),
        30647 => Some(Shape { fronts: 7, lfe: 0, tail: 9 }),
        30651 => Some(Shape { fronts: 7, lfe: 1, tail: 10 }),
        30655 => Some(Shape { fronts: 7, lfe: 1, tail: 9 }),
        32307 => Some(Shape { fronts: 4, lfe: 0, tail: 11 }),
        32311 => Some(Shape { fronts: 5, lfe: 0, tail: 11 }),
        32315 => Some(Shape { fronts: 4, lfe: 1, tail: 11 }),
        32319 => Some(Shape { fronts: 5, lfe: 1, tail: 11 }),
        32691 => Some(Shape { fronts: 7, lfe: 0, tail: 12 }),
        32695 => Some(Shape { fronts: 7, lfe: 0, tail: 11 }),
        32699 => Some(Shape { fronts: 7, lfe: 1, tail: 12 }),
        32703 => Some(Shape { fronts: 7, lfe: 1, tail: 11 }),
        805332543 => Some(Shape { fronts: 5, lfe: 1, tail: 13 }),
        805332927 => Some(Shape { fronts: 7, lfe: 1, tail: 13 }),
        805334591 => Some(Shape { fronts: 5, lfe: 1, tail: 14 }),
        805334975 => Some(Shape { fronts: 7, lfe: 1, tail: 14 }),
        1006659519 => Some(Shape { fronts: 9, lfe: 1, tail: 13 }),
        1006661567 => Some(Shape { fronts: 9, lfe: 1, tail: 14 }),
        _ => None,
    }
}

/// `text` does not hold `letter`.
pub open spec fn lacks(text: Seq<char>, letter: char) -> bool {
    forall|place: int| 0 <= place < text.len() ==> #[trigger] text[place] != letter
}

/// A letter that does not occur has no first place.
pub proof fn lemma_no_place(text: Seq<char>, letter: char, index: int)
    requires
        lacks(text, letter),
        0 <= index,
    ensures
        first_place(text, letter, index) is None,
    decreases text.len() - index,
{
    if index < text.len() {
        lemma_no_place(text, letter, index + 1);
    }
}

/// The first place of a letter is behind what does not hold it.
proof fn lemma_place_behind(head: Seq<char>, letter: char, rest: Seq<char>, index: int)
    requires
        lacks(head, letter),
        0 <= index <= head.len(),
    ensures
        first_place(head + seq![letter] + rest, letter, index) == Some(head.len() as int),
    decreases head.len() - index,
{
    let text = head + seq![letter] + rest;
    if index < head.len() {
        assert(text[index] == head[index]);
        lemma_place_behind(head, letter, rest, index + 1);
    } else {
        assert(text[index] == letter);
    }
}

/// A text that is joined by a letter is cut at it.
proof fn lemma_cut(head: Seq<char>, letter: char, rest: Seq<char>)
    requires
        lacks(head, letter),
    ensures
        part_before(head + seq![letter] + rest, letter) == head,
        part_behind(head + seq![letter] + rest, letter) == Some(rest),
{
    let text = head + seq![letter] + rest;
    lemma_place_behind(head, letter, rest, 0);
    assert(text.subrange(0, head.len() as int) =~= head);
    assert(text.subrange(head.len() as int + 1, text.len() as int) =~= rest);
}

/// What a text without an underscore says as the only part.
proof fn lemma_single(part: Seq<char>)
    requires
        lacks(part, '_'),
    ensures
        overhead_streams(part) == overhead_part(part),
        overhead_named(part) == is_overhead(part),
        overhead_count(part) == if is_overhead(part) {
            named_count(part.drop_last())
        } else {
            0
        },
{
    lemma_no_place(part, '_', 0);
}

/// What a part says with those behind it.
proof fn lemma_joined(part: Seq<char>, rest: Seq<char>, first: Seq<u8>, others: Seq<u8>)
    requires
        lacks(part, '_'),
        overhead_part(part) == Some(first),
        overhead_streams(rest) == Some(others),
    ensures
        overhead_streams(part + seq!['_'] + rest) == Some(first + others),
        overhead_named(part + seq!['_'] + rest) == (is_overhead(part) || overhead_named(rest)),
        overhead_count(part + seq!['_'] + rest) == overhead_count(rest) + if is_overhead(part) {
            named_count(part.drop_last())
        } else {
            0
        },
{
    lemma_cut(part, '_', rest);
}

/// A digit is read as the number that it stands for.
proof fn lemma_digit(value: int)
    requires
        0 <= value < 10,
    ensures
        number_below(seq![digit(value)], 256) == Some(value),
        digit(value) != '.',
        digit(value) != '_',
        digit(value) as int == 48 + value,
        is_digit(digit(value)),
{
    let text = seq![digit(value)];
    assert(unsigned_digits(text) == text);
    assert(text.drop_last() =~= Seq::<char>::empty());
    reveal_with_fuel(digits_value, 2);
    assert(digits_value(text) == value);
}

/// What every part that a name can have says.
proof fn lemma_parts()
    ensures
        overhead_part("2H"@) == Some(seq![9u8, 10u8]),
        lacks("2H"@, '_'),
        is_overhead("2H"@) == true,
        named_count("2H"@.drop_last()) == 2,
        overhead_part("3H"@) == Some(seq![9u8, 10u8, 11u8]),
        lacks("3H"@, '_'),
        is_overhead("3H"@) == true,
        named_count("3H"@.drop_last()) == 3,
        overhead_part("4H"@) == Some(seq![9u8, 10u8, 13u8, 14u8]),
        lacks("4H"@, '_'),
        is_overhead("4H"@) == true,
        named_count("4H"@.drop_last()) == 4,
        overhead_part("5H"@) == Some(seq![9u8, 10u8, 11u8, 13u8, 14u8]),
        lacks("5H"@, '_'),
        is_overhead("5H"@) == true,
        named_count("5H"@.drop_last()) == 5,
        overhead_part("1T"@) == Some(seq![12u8]),
        lacks("1T"@, '_'),
        is_overhead("1T"@) == true,
        named_count("1T"@.drop_last()) == 1,
        overhead_part("2T"@) == Some(seq![12u8, 15u8]),
        lacks("2T"@, '_'),
        is_overhead("2T"@) == true,
        named_count("2T"@.drop_last()) == 2,
        overhead_part("no"@) == Some(Seq::<u8>::empty()),
        lacks("no"@, '_'),
        is_overhead("no"@) == false,
        overhead_part("C"@) == Some(Seq::<u8>::empty()),
        lacks("C"@, '_'),
        is_overhead("C"@) == false,
{
    reveal_strlit("2H");
    reveal_strlit("3H");
    reveal_strlit("4H");
    reveal_strlit("5H");
    reveal_strlit("1T");
    reveal_strlit("2T");
    reveal_strlit("no");
    reveal_strlit("C");
    assert("2H"@[0] == '2' && "2H"@[1] == 'H');
    assert("3H"@[0] == '3' && "3H"@[1] == 'H');
    assert("4H"@[0] == '4' && "4H"@[1] == 'H');
    assert("5H"@[0] == '5' && "5H"@[1] == 'H');
    assert("1T"@[0] == '1' && "1T"@[1] == 'T');
    assert("2T"@[0] == '2' && "2T"@[1] == 'T');
    assert("no"@[0] == 'n' && "no"@[1] == 'o');
    lemma_digit(2);
    assert("2H"@.drop_last() =~= seq![digit(2)]);
    lemma_digit(3);
    assert("3H"@.drop_last() =~= seq![digit(3)]);
    lemma_digit(4);
    assert("4H"@.drop_last() =~= seq![digit(4)]);
    lemma_digit(5);
    assert("5H"@.drop_last() =~= seq![digit(5)]);
    lemma_digit(1);
    assert("1T"@.drop_last() =~= seq![digit(1)]);
    lemma_digit(2);
    assert("2T"@.drop_last() =~= seq![digit(2)]);
}

/// What a tail says.
pub proof fn lemma_tail(tail: int)
    requires
        1 <= tail <= tail_limit(),
    ensures
        overhead_streams(tail_text(tail)) == Some(tail_streams(tail)),
        overhead_named(tail_text(tail)) == (tail_streams(tail).len() > 0),
        overhead_count(tail_text(tail)) == tail_streams(tail).len(),
        1 <= tail_text(tail).len() <= 11,
{
    lemma_parts();
    reveal_strlit("no_C");
    reveal_strlit("4H_1T");
    reveal_strlit("5H_1T");
    reveal_strlit("4H_2T");
    reveal_strlit("5H_2T");
    reveal_strlit("2H_no_C");
    reveal_strlit("4H_no_C");
    reveal_strlit("5H_no_C");
    reveal_strlit("1T_no_C");
    reveal_strlit("4H_1T_no_C");
    reveal_strlit("5H_1T_no_C");
    reveal_strlit("2H");
    reveal_strlit("3H");
    reveal_strlit("4H");
    reveal_strlit("5H");
    reveal_strlit("1T");
    reveal_strlit("2T");
    reveal_strlit("no");
    reveal_strlit("C");
    lemma_single("2H"@);
    lemma_single("3H"@);
    lemma_single("4H"@);
    lemma_single("5H"@);
    lemma_single("1T"@);
    lemma_single("2T"@);
    lemma_single("no"@);
    lemma_single("C"@);
    assert("no_C"@ =~= "no"@ + seq!['_'] + "C"@);
    lemma_joined("no"@, "C"@, Seq::<u8>::empty(), Seq::<u8>::empty());
    assert(Seq::<u8>::empty() + Seq::<u8>::empty() =~= Seq::<u8>::empty());
    assert("4H_1T"@ =~= "4H"@ + seq!['_'] + "1T"@);
    lemma_joined("4H"@, "1T"@, seq![9u8, 10u8, 13u8, 14u8], seq![12u8]);
    assert(seq![9u8, 10u8, 13u8, 14u8] + seq![12u8] =~= seq![9u8, 10u8, 13u8, 14u8, 12u8]);
    assert("5H_1T"@ =~= "5H"@ + seq!['_'] + "1T"@);
    lemma_joined("5H"@, "1T"@, seq![9u8, 10u8, 11u8, 13u8, 14u8], seq![12u8]);
    assert(seq![9u8, 10u8, 11u8, 13u8, 14u8] + seq![12u8] =~= seq![9u8, 10u8, 11u8, 13u8, 14u8, 12u8]);
    assert("4H_2T"@ =~= "4H"@ + seq!['_'] + "2T"@);
    lemma_joined("4H"@, "2T"@, seq![9u8, 10u8, 13u8, 14u8], seq![12u8, 15u8]);
    assert(seq![9u8, 10u8, 13u8, 14u8] + seq![12u8, 15u8] =~= seq![9u8, 10u8, 13u8, 14u8, 12u8, 15u8]);
    assert("5H_2T"@ =~= "5H"@ + seq!['_'] + "2T"@);
    lemma_joined("5H"@, "2T"@, seq![9u8, 10u8, 11u8, 13u8, 14u8], seq![12u8, 15u8]);
    assert(seq![9u8, 10u8, 11u8, 13u8, 14u8] + seq![12u8, 15u8] =~= seq![9u8, 10u8, 11u8, 13u8, 14u8, 12u8, 15u8]);
    assert("2H_no_C"@ =~= "2H"@ + seq!['_'] + "no_C"@);
    lemma_joined("2H"@, "no_C"@, seq![9u8, 10u8], Seq::<u8>::empty());
    assert(seq![9u8, 10u8] + Seq::<u8>::empty() =~= seq![9u8, 10u8]);
    assert("4H_no_C"@ =~= "4H"@ + seq!['_'] + "no_C"@);
    lemma_joined("4H"@, "no_C"@, seq![9u8, 10u8, 13u8, 14u8], Seq::<u8>::empty());
    assert(seq![9u8, 10u8, 13u8, 14u8] + Seq::<u8>::empty() =~= seq![9u8, 10u8, 13u8, 14u8]);
    assert("5H_no_C"@ =~= "5H"@ + seq!['_'] + "no_C"@);
    lemma_joined("5H"@, "no_C"@, seq![9u8, 10u8, 11u8, 13u8, 14u8], Seq::<u8>::empty());
    assert(seq![9u8, 10u8, 11u8, 13u8, 14u8] + Seq::<u8>::empty() =~= seq![9u8, 10u8, 11u8, 13u8, 14u8]);
    assert("1T_no_C"@ =~= "1T"@ + seq!['_'] + "no_C"@);
    lemma_joined("1T"@, "no_C"@, seq![12u8], Seq::<u8>::empty());
    assert(seq![12u8] + Seq::<u8>::empty() =~= seq![12u8]);
    assert("4H_1T_no_C"@ =~= "4H"@ + seq!['_'] + "1T_no_C"@);
    lemma_joined("4H"@, "1T_no_C"@, seq![9u8, 10u8, 13u8, 14u8], seq![12u8]);
    assert(seq![9u8, 10u8, 13u8, 14u8] + seq![12u8] =~= seq![9u8, 10u8, 13u8, 14u8, 12u8]);
    assert("5H_1T_no_C"@ =~= "5H"@ + seq!['_'] + "1T_no_C"@);
    lemma_joined("5H"@, "1T_no_C"@, seq![9u8, 10u8, 11u8, 13u8, 14u8], seq![12u8]);
    assert(seq![9u8, 10u8, 11u8, 13u8, 14u8] + seq![12u8] =~= seq![9u8, 10u8, 11u8, 13u8, 14u8, 12u8]);
}

/// Whether a name ends like one without a centre is told by its tail.
proof fn lemma_centre(fronts: int, lfe: int, tail: int)
    requires
        0 <= fronts < 10,
        0 <= lfe < 10,
        0 <= tail <= tail_limit(),
    ensures
        ends_with(shape_name(fronts, lfe, tail), "_no_C"@) == tail_lacks_centre(tail),
{
    let name = shape_name(fronts, lfe, tail);
    let text = tail_text(tail);
    reveal_strlit("_no_C");
    lemma_digit(fronts);
    lemma_digit(lfe);
    reveal_strlit("no_C");
    reveal_strlit("2H");
    reveal_strlit("2H_no_C");
    reveal_strlit("3H");
    reveal_strlit("4H");
    reveal_strlit("4H_no_C");
    reveal_strlit("5H");
    reveal_strlit("5H_no_C");
    reveal_strlit("4H_1T");
    reveal_strlit("4H_1T_no_C");
    reveal_strlit("5H_1T");
    reveal_strlit("5H_1T_no_C");
    reveal_strlit("4H_2T");
    reveal_strlit("5H_2T");
    if tail_lacks_centre(tail) {
        assert(name.subrange(name.len() - 5, name.len() as int) =~= "_no_C"@);
    } else if tail > 0 {
        assert(name.last() == text.last());
        assert(name.last() != 'C');
        if ends_with(name, "_no_C"@) {
            assert(name.subrange(name.len() - 5, name.len() as int)[4] == name.last());
            assert("_no_C"@[4] == 'C');
        }
    }
}

/// What a name says, by its bed and its tail.
pub proof fn lemma_shape(fronts: int, lfe: int, tail: int)
    requires
        0 <= fronts < 10,
        0 <= lfe < 10,
        0 <= tail <= tail_limit(),
    ensures
        ({
            let name = shape_name(fronts, lfe, tail);
            let bed = part_before(name, '_');
            &&& 3 <= name.len() <= 15
            &&& name[0] == digit(fronts)
            &&& is_digit(name[0])
            &&& name[2] == digit(lfe)
            &&& number_below(part_before(bed, '.'), 256) == Some(fronts)
            &&& part_behind(bed, '.') matches Some(text) && number_below(text, 256) == Some(lfe)
            &&& ends_with(name, "_no_C"@) == tail_lacks_centre(tail)
            &&& part_behind(name, '_') == if tail == 0 {
                None
            } else {
                Some(tail_text(tail))
            }
            &&& streams_of_name(name) == match floor_streams(fronts, tail_lacks_centre(tail)) {
                None => None,
                Some(floor) => Some(
                    if lfe == 1 {
                        floor.push(3u8)
                    } else {
                        floor
                    } + tail_streams(tail),
                ),
            }
        }),
{
    let name = shape_name(fronts, lfe, tail);
    let bed = seq![digit(fronts), '.', digit(lfe)];
    lemma_digit(fronts);
    lemma_digit(lfe);
    lemma_centre(fronts, lfe, tail);
    assert(lacks(bed, '_'));
    if tail == 0 {
        lemma_no_place(bed, '_', 0);
    } else {
        lemma_tail(tail);
        lemma_cut(bed, '_', tail_text(tail));
    }
    assert(bed =~= seq![digit(fronts)] + seq!['.'] + seq![digit(lfe)]);
    lemma_cut(seq![digit(fronts)], '.', seq![digit(lfe)]);
    if let Some(floor) = floor_streams(fronts, tail_lacks_centre(tail)) {
        let whole = if lfe == 1 {
            floor.push(3u8)
        } else {
            floor
        };
        assert(whole + Seq::<u8>::empty() =~= whole);
    }
}

/// Every name in the table is a bed and a tail, but for the three whose streams
/// are not known.
pub proof fn lemma_table(id: u32)
    ensures
        match shape_of(id) {
            Some(shape) => {
                &&& layout_name(id) == Some(shape_name(shape.fronts, shape.lfe, shape.tail))
                &&& 0 <= shape.fronts < 10
                &&& 0 <= shape.lfe <= 1
                &&& 0 <= shape.tail <= tail_limit()
                &&& tail_lacks_centre(shape.tail) ==> shape.fronts == 7
            },
            None => layout_name(id) is Some ==> id == 71 || id == 2052 || id == 6148,
        },
{
    match id {
        3 => {
            reveal_strlit("2.0");
            assert("2.0"@ =~= shape_name(2, 0, 0));
        },
        4 => {
            reveal_strlit("1.0");
            assert("1.0"@ =~= shape_name(1, 0, 0));
        },
        7 => {
            reveal_strlit("3.0");
            assert("3.0"@ =~= shape_name(3, 0, 0));
        },
        8 => {
            reveal_strlit("0.1");
            assert("0.1"@ =~= shape_name(0, 1, 0));
        },
        11 => {
            reveal_strlit("2.1");
            assert("2.1"@ =~= shape_name(2, 1, 0));
        },
        12 => {
            reveal_strlit("1.1");
            assert("1.1"@ =~= shape_name(1, 1, 0));
        },
        15 => {
            reveal_strlit("3.1");
            assert("3.1"@ =~= shape_name(3, 1, 0));
        },
        51 => {
            reveal_strlit("4.0");
            assert("4.0"@ =~= shape_name(4, 0, 0));
        },
        55 => {
            reveal_strlit("5.0");
            assert("5.0"@ =~= shape_name(5, 0, 0));
        },
        59 => {
            reveal_strlit("4.1");
            assert("4.1"@ =~= shape_name(4, 1, 0));
        },
        63 => {
            reveal_strlit("5.1");
            assert("5.1"@ =~= shape_name(5, 1, 0));
        },
        119 => {
            reveal_strlit("6.0");
            assert("6.0"@ =~= shape_name(6, 0, 0));
        },
        127 => {
            reveal_strlit("6.1");
            assert("6.1"@ =~= shape_name(6, 1, 0));
        },
        435 => {
            reveal_strlit("7.0_no_C");
            reveal_strlit("no_C");
            assert("7.0_no_C"@ =~= shape_name(7, 0, 1));
        },
        439 => {
            reveal_strlit("7.0");
            assert("7.0"@ =~= shape_name(7, 0, 0));
        },
        443 => {
            reveal_strlit("7.1_no_C");
            reveal_strlit("no_C");
            assert("7.1_no_C"@ =~= shape_name(7, 1, 1));
        },
        447 => {
            reveal_strlit("7.1");
            assert("7.1"@ =~= shape_name(7, 1, 0));
        },
        1539 => {
            reveal_strlit("2.0_2H");
            reveal_strlit("2H");
            assert("2.0_2H"@ =~= shape_name(2, 0, 2));
        },
        1543 => {
            reveal_strlit("3.0_2H");
            reveal_strlit("2H");
            assert("3.0_2H"@ =~= shape_name(3, 0, 2));
        },
        1547 => {
            reveal_strlit("2.1_2H");
            reveal_strlit("2H");
            assert("2.1_2H"@ =~= shape_name(2, 1, 2));
        },
        1551 => {
            reveal_strlit("3.1_2H");
            reveal_strlit("2H");
            assert("3.1_2H"@ =~= shape_name(3, 1, 2));
        },
        1587 => {
            reveal_strlit("4.0_2H");
            reveal_strlit("2H");
            assert("4.0_2H"@ =~= shape_name(4, 0, 2));
        },
        1591 => {
            reveal_strlit("5.0_2H");
            reveal_strlit("2H");
            assert("5.0_2H"@ =~= shape_name(5, 0, 2));
        },
        1595 => {
            reveal_strlit("4.1_2H");
            reveal_strlit("2H");
            assert("4.1_2H"@ =~= shape_name(4, 1, 2));
        },
        1599 => {
            reveal_strlit("5.1_2H");
            reveal_strlit("2H");
            assert("5.1_2H"@ =~= shape_name(5, 1, 2));
        },
        1971 => {
            reveal_strlit("7.0_2H_no_C");
            reveal_strlit("2H_no_C");
            assert("7.0_2H_no_C"@ =~= shape_name(7, 0, 3));
        },
        1975 => {
            reveal_strlit("7.0_2H");
            reveal_strlit("2H");
            assert("7.0_2H"@ =~= shape_name(7, 0, 2));
        },
        1979 => {
            reveal_strlit("7.1_2H_no_C");
            reveal_strlit("2H_no_C");
            assert("7.1_2H_no_C"@ =~= shape_name(7, 1, 3));
        },
        1983 => {
            reveal_strlit("7.1_2H");
            reveal_strlit("2H");
            assert("7.1_2H"@ =~= shape_name(7, 1, 2));
        },
        3591 => {
            reveal_strlit("3.0_3H");
            reveal_strlit("3H");
            assert("3.0_3H"@ =~= shape_name(3, 0, 4));
        },
        3599 => {
            reveal_strlit("3.1_3H");
            reveal_strlit("3H");
            assert("3.1_3H"@ =~= shape_name(3, 1, 4));
        },
        26163 => {
            reveal_strlit("4.0_4H");
            reveal_strlit("4H");
            assert("4.0_4H"@ =~= shape_name(4, 0, 5));
        },
        26167 => {
            reveal_strlit("5.0_4H");
            reveal_strlit("4H");
            assert("5.0_4H"@ =~= shape_name(5, 0, 5));
        },
        26171 => {
            reveal_strlit("4.1_4H");
            reveal_strlit("4H");
            assert("4.1_4H"@ =~= shape_name(4, 1, 5));
        },
        26175 => {
            reveal_strlit("5.1_4H");
            reveal_strlit("4H");
            assert("5.1_4H"@ =~= shape_name(5, 1, 5));
        },
        26547 => {
            reveal_strlit("7.0_4H_no_C");
            reveal_strlit("4H_no_C");
            assert("7.0_4H_no_C"@ =~= shape_name(7, 0, 6));
        },
        26551 => {
            reveal_strlit("7.0_4H");
            reveal_strlit("4H");
            assert("7.0_4H"@ =~= shape_name(7, 0, 5));
        },
        26555 => {
            reveal_strlit("7.1_4H_no_C");
            reveal_strlit("4H_no_C");
            assert("7.1_4H_no_C"@ =~= shape_name(7, 1, 6));
        },
        26559 => {
            reveal_strlit("7.1_4H");
            reveal_strlit("4H");
            assert("7.1_4H"@ =~= shape_name(7, 1, 5));
        },
        28211 => {
            reveal_strlit("4.0_5H");
            reveal_strlit("5H");
            assert("4.0_5H"@ =~= shape_name(4, 0, 7));
        },
        28215 => {
            reveal_strlit("5.0_5H");
            reveal_strlit("5H");
            assert("5.0_5H"@ =~= shape_name(5, 0, 7));
        },
        28219 => {
            reveal_strlit("4.1_5H");
            reveal_strlit("5H");
            assert("4.1_5H"@ =~= shape_name(4, 1, 7));
        },
        28223 => {
            reveal_strlit("5.1_5H");
            reveal_strlit("5H");
            assert("5.1_5H"@ =~= shape_name(5, 1, 7));
        },
        28595 => {
            reveal_strlit("7.0_5H_no_C");
            reveal_strlit("5H_no_C");
            assert("7.0_5H_no_C"@ =~= shape_name(7, 0, 8));
        },
        28599 => {
            reveal_strlit("7.0_5H");
            reveal_strlit("5H");
            assert("7.0_5H"@ =~= shape_name(7, 0, 7));
        },
        28603 => {
            reveal_strlit("7.1_5H_no_C");
            reveal_strlit("5H_no_C");
            assert("7.1_5H_no_C"@ =~= shape_name(7, 1, 8));
        },
        28607 => {
            reveal_strlit("7.1_5H");
            reveal_strlit("5H");
            assert("7.1_5H"@ =~= shape_name(7, 1, 7));
        },
        30259 => {
            reveal_strlit("4.0_4H_1T");
            reveal_strlit("4H_1T");
            assert("4.0_4H_1T"@ =~= shape_name(4, 0, 9));
        },
        30263 => {
            reveal_strlit("5.0_4H_1T");
            reveal_strlit("4H_1T");
            assert("5.0_4H_1T"@ =~= shape_name(5, 0, 9));
        },
        30267 => {
            reveal_strlit("4.1_4H_1T");
            reveal_strlit("4H_1T");
            assert("4.1_4H_1T"@ =~= shape_name(4, 1, 9));
        },
        30271 => {
            reveal_strlit("5.1_4H_1T");
            reveal_strlit("4H_1T");
            assert("5.1_4H_1T"@ =~= shape_name(5, 1, 9));
        },
        30643 => {
            reveal_strlit("7.0_4H_1T_no_C");
            reveal_strlit("4H_1T_no_C");
            assert("7.0_4H_1T_no_C"@ =~= shape_name(7, 0, 10));
        },
        30647 => {
            reveal_strlit("7.0_4H_1T");
            reveal_strlit("4H_1T");
            assert("7.0_4H_1T"@ =~= shape_name(7, 0, 9));
        },
        30651 => {
            reveal_strlit("7.1_4H_1T_no_C");
            reveal_strlit("4H_1T_no_C");
            assert("7.1_4H_1T_no_C"@ =~= shape_name(7, 1, 10));
        },
        30655 => {
            reveal_strlit("7.1_4H_1T");
            reveal_strlit("4H_1T");
            assert("7.1_4H_1T"@ =~= shape_name(7, 1, 9));
        },
        32307 => {
            reveal_strlit("4.0_5H_1T");
            reveal_strlit("5H_1T");
            assert("4.0_5H_1T"@ =~= shape_name(4, 0, 11));
        },
        32311 => {
            reveal_strlit("5.0_5H_1T");
            reveal_strlit("5H_1T");
            assert("5.0_5H_1T"@ =~= shape_name(5, 0, 11));
        },
        32315 => {
            reveal_strlit("4.1_5H_1T");
            reveal_strlit("5H_1T");
            assert("4.1_5H_1T"@ =~= shape_name(4, 1, 11));
        },
        32319 => {
            reveal_strlit("5.1_5H_1T");
            reveal_strlit("5H_1T");
            assert("5.1_5H_1T"@ =~= shape_name(5, 1, 11));
        },
        32691 => {
            reveal_strlit("7.0_5H_1T_no_C");
            reveal_strlit("5H_1T_no_C");
            assert("7.0_5H_1T_no_C"@ =~= shape_name(7, 0, 12));
        },
        32695 => {
            reveal_strlit("7.0_5H_1T");
            reveal_strlit("5H_1T");
            assert("7.0_5H_1T"@ =~= shape_name(7, 0, 11));
        },
        32699 => {
            reveal_strlit("7.1_5H_1T_no_C");
            reveal_strlit("5H_1T_no_C");
            assert("7.1_5H_1T_no_C"@ =~= shape_name(7, 1, 12));
        },
        32703 => {
            reveal_strlit("7.1_5H_1T");
            reveal_strlit("5H_1T");
            assert("7.1_5H_1T"@ =~= shape_name(7, 1, 11));
        },
        805332543 => {
            reveal_strlit("5.1_4H_2T");
            reveal_strlit("4H_2T");
            assert("5.1_4H_2T"@ =~= shape_name(5, 1, 13));
        },
        805332927 => {
            reveal_strlit("7.1_4H_2T");
            reveal_strlit("4H_2T");
            assert("7.1_4H_2T"@ =~= shape_name(7, 1, 13));
        },
        805334591 => {
            reveal_strlit("5.1_5H_2T");
            reveal_strlit("5H_2T");
            assert("5.1_5H_2T"@ =~= shape_name(5, 1, 14));
        },
        805334975 => {
            reveal_strlit("7.1_5H_2T");
            reveal_strlit("5H_2T");
            assert("7.1_5H_2T"@ =~= shape_name(7, 1, 14));
        },
        1006659519 => {
            reveal_strlit("9.1_4H_2T");
            reveal_strlit("4H_2T");
            assert("9.1_4H_2T"@ =~= shape_name(9, 1, 13));
        },
        1006661567 => {
            reveal_strlit("9.1_5H_2T");
            reveal_strlit("5H_2T");
            assert("9.1_5H_2T"@ =~= shape_name(9, 1, 14));
        },
        _ => {},
    }
}

/// The three names without a bed have no overhead part, and no streams.
pub proof fn lemma_odd_names()
    ensures
        streams_of_name("LCRS"@) is None,
        streams_of_name("TestMix2.0"@) is None,
        streams_of_name("TestMix3.0"@) is None,
        part_behind("LCRS"@, '_') is None,
        part_behind("TestMix2.0"@, '_') is None,
        part_behind("TestMix3.0"@, '_') is None,
        "LCRS"@.len() == 4,
        "TestMix2.0"@.len() == 10,
        "TestMix3.0"@.len() == 10,
        "TestMix2.0"@[7] == '2',
        "TestMix3.0"@[7] == '3',
        !is_digit("LCRS"@[0]),
        !is_digit("TestMix2.0"@[0]),
        !is_digit("TestMix3.0"@[0]),
{
    reveal_strlit("LCRS");
    reveal_strlit("TestMix2.0");
    reveal_strlit("TestMix3.0");
    lemma_no_place("LCRS"@, '_', 0);
    lemma_no_place("LCRS"@, '.', 0);
    lemma_odd_bed("TestMix2.0"@);
    lemma_odd_bed("TestMix3.0"@);
}

/// A bed whose fronts are no number has no streams.
proof fn lemma_odd_bed(name: Seq<char>)
    requires
        name.len() > 0,
        !is_digit(name[0]),
        name[0] != '+',
        name[0] != '.',
        lacks(name, '_'),
    ensures
        streams_of_name(name) is None,
        part_behind(name, '_') is None,
{
    lemma_no_place(name, '_', 0);
    crate::auro::layout::lemma_place(name, '.', 0);
    let fronts = part_before(name, '.');
    if part_behind(name, '.') is Some {
        let place = first_place(name, '.', 0)->0;
        assert(name[place] == '.');
        assert(fronts.len() > 0 && fronts[0] == name[0]);
        assert(unsigned_digits(fronts) == fronts);
        assert(number_below(fronts, 256) is None);
    }
}

} // verus!
