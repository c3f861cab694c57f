//! Comparing, reading and writing short texts.

use vstd::prelude::*;
use vstd::string::{StrSliceExecFns, StringExecFns};

verus! {

/// `letter` with an ASCII capital made small.
pub open spec fn ascii_lower(letter: char) -> char {
    if 'A' <= letter && letter <= 'Z' {
        (letter as u32 + 32) as u8 as char
    } else {
        letter
    }
}

/// Whether two texts are the same but for the case of ASCII letters.
pub open spec fn same_ignoring_case(left: Seq<char>, right: Seq<char>) -> bool {
    &&& left.len() == right.len()
    &&& forall|index: int|
        0 <= index < left.len() ==> ascii_lower(#[trigger] left[index]) == ascii_lower(right[index])
}

/// Whether `letter` is a decimal digit.
pub open spec fn is_digit(letter: char) -> bool {
    '0' <= letter && letter <= '9'
}

/// The number that a text of digits spells.
pub open spec fn digits_value(digits: Seq<char>) -> int
    decreases digits.len(),
{
    if digits.len() == 0 {
        0
    } else {
        10 * digits_value(digits.drop_last()) + (digits.last() as int - '0' as int)
    }
}

/// The digits of a decimal number: the text without one leading plus sign.
pub open spec fn unsigned_digits(text: Seq<char>) -> Seq<char> {
    if text.len() > 0 && text[0] == '+' {
        text.subrange(1, text.len() as int)
    } else {
        text
    }
}

/// The number below `limit` that `text` spells: digits only, at least one, with
/// or without a leading plus sign.
pub open spec fn number_below(text: Seq<char>, limit: int) -> Option<int> {
    let digits = unsigned_digits(text);
    if digits.len() > 0 && (forall|index: int|
        0 <= index < digits.len() ==> is_digit(#[trigger] digits[index])) && digits_value(digits)
        < limit {
        Some(digits_value(digits))
    } else {
        None
    }
}

/// The decimal digit of a number below ten.
pub open spec fn digit(value: int) -> char {
    ('0' as u32 + value) as u8 as char
}

/// A number in decimal digits.
pub open spec fn decimal_text(value: nat) -> Seq<char>
    decreases value,
{
    if value < 10 {
        seq![digit(value as int)]
    } else {
        decimal_text(value / 10).push(digit((value % 10) as int))
    }
}

/// Whether two texts are the same.
pub fn same_text(left: &str, right: &str) -> (same: bool)
    ensures
        same == (left@ == right@),
{
    let count: usize = left.unicode_len();
    if count != right.unicode_len() {
        return false;
    }
    let mut index: usize = 0;
    while index < count
        invariant
            count == left@.len() == right@.len(),
            index <= count,
            forall|seen: int| 0 <= seen < index ==> left@[seen] == right@[seen],
        decreases count - index,
    {
        if left.get_char(index) != right.get_char(index) {
            return false;
        }
        index = index + 1;
    }
    assert(left@ =~= right@);
    true
}

/// `letter` with an ASCII capital made small.
fn lower(letter: char) -> (result: char)
    ensures
        result == ascii_lower(letter),
{
    if 'A' <= letter && letter <= 'Z' {
        (letter as u32 + 32) as u8 as char
    } else {
        letter
    }
}

/// Whether two texts are the same but for the case of ASCII letters.
pub fn same_text_ignoring_case(left: &str, right: &str) -> (same: bool)
    ensures
        same == same_ignoring_case(left@, right@),
{
    let count: usize = left.unicode_len();
    if count != right.unicode_len() {
        return false;
    }
    let mut index: usize = 0;
    while index < count
        invariant
            count == left@.len() == right@.len(),
            index <= count,
            forall|seen: int|
                0 <= seen < index ==> ascii_lower(#[trigger] left@[seen]) == ascii_lower(
                    right@[seen],
                ),
        decreases count - index,
    {
        if lower(left.get_char(index)) != lower(right.get_char(index)) {
            return false;
        }
        index = index + 1;
    }
    true
}

/// A text of digits with one more digit spells a number that is not smaller.
proof fn lemma_digits_value_grows(digits: Seq<char>, count: int)
    requires
        0 <= count <= digits.len(),
        forall|index: int| 0 <= index < digits.len() ==> is_digit(#[trigger] digits[index]),
    ensures
        0 <= digits_value(digits.take(count)) <= digits_value(digits),
    decreases digits.len(),
{
    if count == digits.len() {
        assert(digits.take(count) =~= digits);
        if digits.len() > 0 {
            lemma_digits_value_grows(digits.drop_last(), digits.len() - 1);
            assert(digits.drop_last().take(digits.len() - 1) =~= digits.drop_last());
            assert(is_digit(digits[digits.len() - 1]));
        }
    } else {
        lemma_digits_value_grows(digits.drop_last(), count);
        assert(digits.drop_last().take(count) =~= digits.take(count));
        assert(is_digit(digits[digits.len() - 1]));
    }
}

/// Reads a decimal number that fits a byte, as `str::parse` does.
pub fn parse_byte(text: &str) -> (result: Option<u8>)
    ensures
        match result {
            Some(value) => number_below(text@, 256) == Some(value as int),
            None => number_below(text@, 256) is None,
        },
{
    let count: usize = text.unicode_len();
    if count == 0 {
        return None;
    }
    let first: usize = if text.get_char(0) == '+' {
        1
    } else {
        0
    };
    let ghost digits = unsigned_digits(text@);
    assert(digits =~= text@.subrange(first as int, count as int));
    if first == count {
        return None;
    }
    let mut value: u32 = 0;
    let mut index: usize = first;
    while index < count
        invariant
            count == text@.len(),
            first <= index <= count,
            0 < digits.len(),
            digits == unsigned_digits(text@),
            digits == text@.subrange(first as int, count as int),
            value < 256,
            value == digits_value(digits.take(index - first)),
            forall|seen: int| 0 <= seen < index - first ==> is_digit(#[trigger] digits[seen]),
        decreases count - index,
    {
        let letter: char = text.get_char(index);
        assert(letter == digits[index - first]);
        if letter < '0' || letter > '9' {
            assert(!is_digit(digits[index - first]));
            return None;
        }
        proof {
            assert(digits.take(index - first + 1).drop_last() =~= digits.take(index - first));
            assert(digits.take(index - first + 1).last() == letter);
        }
        value = 10 * value + (letter as u32 - '0' as u32);
        index = index + 1;
        if value >= 256 {
            proof {
                if forall|seen: int| 0 <= seen < digits.len() ==> is_digit(#[trigger] digits[seen]) {
                    lemma_digits_value_grows(digits, index - first);
                }
            }
            return None;
        }
    }
    assert(digits.take(index - first) =~= digits);
    Some(value as u8)
}

/// The decimal digit of a number below ten.
fn digit_text(value: usize) -> (result: &'static str)
    requires
        value < 10,
    ensures
        result@ == seq![digit(value as int)],
{
    proof {
        reveal_strlit("0");
        reveal_strlit("1");
        reveal_strlit("2");
        reveal_strlit("3");
        reveal_strlit("4");
        reveal_strlit("5");
        reveal_strlit("6");
        reveal_strlit("7");
        reveal_strlit("8");
        reveal_strlit("9");
    }
    let result: &'static str = match value {
        0 => "0",
        1 => "1",
        2 => "2",
        3 => "3",
        4 => "4",
        5 => "5",
        6 => "6",
        7 => "7",
        8 => "8",
        _ => "9",
    };
    assert(result@ =~= seq![digit(value as int)]);
    result
}

/// A number in decimal digits.
pub fn decimal(value: usize) -> (result: String)
    ensures
        result@ == decimal_text(value as nat),
    decreases value,
{
    if value < 10 {
        digit_text(value).to_owned()
    } else {
        let mut result: String = decimal(value / 10);
        let ghost head = result@;
        result.append(digit_text(value % 10));
        assert(result@ =~= head.push(digit((value % 10) as int)));
        result
    }
}

/// The upper-case hexadecimal digit of a number below sixteen.
pub open spec fn hex_digit(value: int) -> char {
    if value < 10 {
        digit(value)
    } else {
        ('A' as u32 + (value - 10)) as u8 as char
    }
}

/// A byte in two upper-case hexadecimal digits.
pub open spec fn hex_text(value: u8) -> Seq<char> {
    seq![hex_digit(value as int / 16), hex_digit(value as int % 16)]
}

/// The upper-case hexadecimal digit of a number below sixteen.
fn hex_digit_text(value: u8) -> (result: &'static str)
    requires
        value < 16,
    ensures
        result@ == seq![hex_digit(value as int)],
{
    if value < 10 {
        return digit_text(value as usize);
    }
    proof {
        reveal_strlit("A");
        reveal_strlit("B");
        reveal_strlit("C");
        reveal_strlit("D");
        reveal_strlit("E");
        reveal_strlit("F");
    }
    let result: &'static str = match value {
        10 => "A",
        11 => "B",
        12 => "C",
        13 => "D",
        14 => "E",
        _ => "F",
    };
    assert(result@ =~= seq![hex_digit(value as int)]);
    result
}

/// A byte in two upper-case hexadecimal digits.
pub fn hex(value: u8) -> (result: String)
    ensures
        result@ == hex_text(value),
{
    let mut result: String = hex_digit_text(value / 16).to_owned();
    result.append(hex_digit_text(value % 16));
    assert(result@ =~= hex_text(value));
    result
}

/// A number that is read lies below its limit and is not negative.
pub proof fn numbers_lie_below_their_limit(text: Seq<char>, limit: int)
    ensures
        number_below(text, limit) matches Some(number) ==> 0 <= number < limit,
{
    if number_below(text, limit) is Some {
        let digits = unsigned_digits(text);
        lemma_digits_value_grows(digits, 0);
    }
}

/// A number that is written in decimal digits holds digits only and spells
/// itself.
proof fn lemma_decimal(value: nat)
    ensures
        decimal_text(value).len() > 0,
        forall|index: int|
            0 <= index < decimal_text(value).len() ==> '0' <= #[trigger] decimal_text(value)[index]
                && decimal_text(value)[index] <= '9',
        digits_value(decimal_text(value)) == value,
    decreases value,
{
    reveal_with_fuel(digits_value, 2);
    if value < 10 {
        assert(decimal_text(value).drop_last() =~= Seq::<char>::empty());
    } else {
        lemma_decimal(value / 10);
        let head = decimal_text(value / 10);
        let text = decimal_text(value);
        assert(text.drop_last() =~= head);
        assert forall|index: int| 0 <= index < text.len() implies '0' <= #[trigger] text[index]
            && text[index] <= '9' by {
            if index < head.len() {
                assert(text[index] == head[index]);
            }
        }
    }
}

/// A number below the limit that is written in decimal digits reads back as
/// itself, with a leading plus sign too.
pub proof fn numbers_read_back(value: nat, limit: int)
    requires
        value < limit,
    ensures
        number_below(decimal_text(value), limit) == Some(value as int),
        number_below(seq!['+'] + decimal_text(value), limit) == Some(value as int),
{
    lemma_decimal(value);
    let text = decimal_text(value);
    assert(text[0] != '+');
    let signed = seq!['+'] + text;
    assert(signed.subrange(1, signed.len() as int) =~= text);
}

/// A text that holds anything but digits behind a leading plus sign, or nothing,
/// spells no number.
pub proof fn only_digits_are_numbers(text: Seq<char>, place: int, limit: int)
    requires
        text.len() == 0 || 0 <= place < text.len() && !('0' <= text[place] && text[place] <= '9')
            && !(place == 0 && text[0] == '+'),
    ensures
        number_below(text, limit) is None,
{
    if text.len() > 0 {
        let digits = unsigned_digits(text);
        if text[0] == '+' {
            assert(digits[place - 1] == text[place]);
        } else {
            assert(digits[place] == text[place]);
        }
    }
}

/// What a hexadecimal digit stands for.
pub open spec fn hex_value(letter: char) -> int {
    if '0' <= letter && letter <= '9' {
        letter as int - 48
    } else if 'A' <= letter && letter <= 'F' {
        letter as int - 55
    } else {
        -1
    }
}

/// A byte is written in two upper-case hexadecimal digits, the higher one first.
pub proof fn bytes_are_written_in_hex(value: u8)
    ensures
        hex_text(value).len() == 2,
        0 <= hex_value(hex_text(value)[0]) <= 15,
        0 <= hex_value(hex_text(value)[1]) <= 15,
        16 * hex_value(hex_text(value)[0]) + hex_value(hex_text(value)[1]) == value,
{
}

/// Texts are compared without regard to the case of ASCII letters, and of no
/// other ones.
pub proof fn only_ascii_case_is_ignored(left: Seq<char>, right: Seq<char>)
    ensures
        left == right ==> same_ignoring_case(left, right),
        same_ignoring_case(left, right) ==> left.len() == right.len() && forall|index: int|
            0 <= index < left.len() ==> {
                ||| #[trigger] left[index] == right[index]
                ||| 'A' <= left[index] && left[index] <= 'Z' && right[index] as int
                    == left[index] as int + 32
                ||| 'A' <= right[index] && right[index] <= 'Z' && left[index] as int
                    == right[index] as int + 32
            },
{
}

} // verus!
