//! Most-significant-bit-first reading of a byte slice, and Huffman decoding
//! from a code book given as data.

use vstd::arithmetic::power2::{lemma2_to64, lemma_pow2_strictly_increases, lemma_pow2_unfold, pow2};
use vstd::prelude::*;

verus! {

/// Why a read failed.
#[derive(Debug, Clone, Copy, PartialEq, Eq, Structural)]
pub enum BitError {
    /// The data ends before the last bit asked for.
    EndOfData,
    /// More bits were asked for than the target type holds.
    TooWide,
    /// No entry of the code book spells the next bits.
    UnknownCode,
}

/// Weight of bit `index` of a byte, counted from the most significant bit.
pub open spec fn bit_weight(index: int) -> int {
    if index == 0 {
        128
    } else if index == 1 {
        64
    } else if index == 2 {
        32
    } else if index == 3 {
        16
    } else if index == 4 {
        8
    } else if index == 5 {
        4
    } else if index == 6 {
        2
    } else {
        1
    }
}

/// Bit `position` of `data`, as 0 or 1.
pub open spec fn bit_at(data: Seq<u8>, position: int) -> int {
    (data[position / 8] as int / bit_weight(position % 8)) % 2
}

/// The unsigned number spelled by the `count` bits from `position` on.
pub open spec fn bits_value(data: Seq<u8>, position: int, count: nat) -> int
    decreases count,
{
    if count == 0 {
        0
    } else {
        2 * bits_value(data, position, (count - 1) as nat) + bit_at(data, position + count - 1)
    }
}

/// The two's-complement number spelled by the `count` bits from `position` on.
pub open spec fn signed_bits_value(data: Seq<u8>, position: int, count: nat) -> int {
    let value = bits_value(data, position, count);
    if count > 0 && bit_at(data, position) == 1 {
        value - pow2(count)
    } else {
        value
    }
}

/// Whether `count` bits are left at `position`.
pub open spec fn bits_left(data: Seq<u8>, position: int, count: int) -> bool {
    position + count <= 8 * data.len()
}

/// A number of `count` bits lies in `0..2^count`.
pub proof fn bits_value_in_range(data: Seq<u8>, position: int, count: nat)
    ensures
        0 <= bits_value(data, position, count) < pow2(count),
    decreases count,
{
    if count == 0 {
        lemma2_to64();
    } else {
        bits_value_in_range(data, position, (count - 1) as nat);
        lemma_pow2_unfold(count);
    }
}

/// The first bit of a number of `count` bits weighs `2^(count - 1)`.
pub proof fn bits_value_splits_first_bit(data: Seq<u8>, position: int, count: nat)
    requires
        count > 0,
    ensures
        bits_value(data, position, count) == bit_at(data, position) * pow2((count - 1) as nat)
            + bits_value(data, position + 1, (count - 1) as nat),
    decreases count,
{
    reveal_with_fuel(bits_value, 2);
    if count == 1 {
        lemma2_to64();
        let first = bit_at(data, position);
        assert(first * 1 == first) by (nonlinear_arith);
    } else {
        let rest = (count - 1) as nat;
        bits_value_splits_first_bit(data, position, rest);
        lemma_pow2_unfold(rest);
        let first = bit_at(data, position);
        let half = pow2((rest - 1) as nat);
        assert(2 * (first * half) == first * (2 * half)) by (nonlinear_arith);
        assert(position + rest == position + 1 + rest - 1);
    }
}

/// A signed number of `count` bits lies in `-2^(count - 1)..2^(count - 1)`.
pub proof fn signed_bits_value_in_range(data: Seq<u8>, position: int, count: nat)
    requires
        count > 0,
    ensures
        -pow2((count - 1) as nat) <= signed_bits_value(data, position, count) < pow2(
            (count - 1) as nat,
        ),
{
    bits_value_splits_first_bit(data, position, count);
    bits_value_in_range(data, position + 1, (count - 1) as nat);
    lemma_pow2_unfold(count);
    let half = pow2((count - 1) as nat) as int;
    let first = bit_at(data, position);
    assert(first == 0 || first == 1);
    assert(0 * half == 0);
    assert(1 * half == half);
}

/// One code of a Huffman book: the `length` bits that spell `code` stand for
/// `value`.
#[derive(Debug, Clone, Copy, PartialEq, Eq, Structural)]
pub struct HuffmanEntry {
    pub length: u32,
    pub code: u32,
    pub value: i32,
}

/// A Huffman code book.
#[derive(Debug)]
pub struct HuffmanBook {
    pub entries: Vec<HuffmanEntry>,
}

/// Whether the bits at `position` spell the code of `entry`.
pub open spec fn spells(entry: HuffmanEntry, data: Seq<u8>, position: int) -> bool {
    &&& entry.length <= 32
    &&& bits_left(data, position, entry.length as int)
    &&& bits_value(data, position, entry.length as nat) == entry.code
}

/// The first entry from `index` on whose code the bits at `position` spell.
pub open spec fn huffman_entry(
    entries: Seq<HuffmanEntry>,
    data: Seq<u8>,
    position: int,
    index: int,
) -> Option<HuffmanEntry>
    decreases entries.len() - index,
{
    if index >= entries.len() {
        None
    } else if spells(entries[index], data, position) {
        Some(entries[index])
    } else {
        huffman_entry(entries, data, position, index + 1)
    }
}

/// A position in a byte slice, counted in bits.
#[derive(Debug, Clone, Copy)]
pub struct BitReader<'a> {
    data: &'a [u8],
    position: u64,
}

impl<'a> BitReader<'a> {
    /// The bytes that are read.
    pub closed spec fn data(&self) -> Seq<u8> {
        self.data@
    }

    /// The index of the next bit.
    pub closed spec fn pos(&self) -> int {
        self.position as int
    }

    /// Bit positions fit their type, and the next bit is not past the end.
    pub closed spec fn wf(&self) -> bool {
        &&& 8 * self.data@.len() <= u64::MAX
        &&& self.position <= 8 * self.data@.len()
    }

    /// What every reader guarantees of its position.
    pub proof fn wf_bounds(&self)
        requires
            self.wf(),
        ensures
            0 <= self.pos() <= 8 * self.data().len() <= u64::MAX,
    {
    }

    /// A reader at the first bit of `data`.
    pub fn new(data: &'a [u8]) -> (reader: Self)
        requires
            8 * data@.len() <= u64::MAX,
        ensures
            reader.wf(),
            reader.data() == data@,
            reader.pos() == 0,
    {
        BitReader { data, position: 0 }
    }

    /// The index of the next bit.
    pub fn position(&self) -> (position: u64)
        ensures
            position == self.pos(),
    {
        self.position
    }

    /// Reads one bit.
    pub fn get(&mut self) -> (result: Result<bool, BitError>)
        requires
            old(self).wf(),
        ensures
            final(self).wf(),
            final(self).data() == old(self).data(),
            match result {
                Ok(bit) => {
                    &&& bits_left(old(self).data(), old(self).pos(), 1)
                    &&& bit == (bit_at(old(self).data(), old(self).pos()) == 1)
                    &&& final(self).pos() == old(self).pos() + 1
                },
                Err(error) => {
                    &&& !bits_left(old(self).data(), old(self).pos(), 1)
                    &&& error == BitError::EndOfData
                    &&& final(self).pos() == old(self).pos()
                },
            },
    {
        if self.position / 8 >= self.data.len() as u64 {
            return Err(BitError::EndOfData);
        }
        let byte: u8 = self.data[(self.position / 8) as usize];
        let weight: u8 = match self.position % 8 {
            0 => 128,
            1 => 64,
            2 => 32,
            3 => 16,
            4 => 8,
            5 => 4,
            6 => 2,
            _ => 1,
        };
        self.position = self.position + 1;
        Ok((byte / weight) % 2 == 1)
    }

    /// Reads an unsigned number of `count` bits.
    pub fn get_n(&mut self, count: u32) -> (result: Result<u32, BitError>)
        requires
            old(self).wf(),
            count <= 32,
        ensures
            final(self).wf(),
            final(self).data() == old(self).data(),
            match result {
                Ok(value) => {
                    &&& bits_left(old(self).data(), old(self).pos(), count as int)
                    &&& value == bits_value(old(self).data(), old(self).pos(), count as nat)
                    &&& final(self).pos() == old(self).pos() + count
                },
                Err(error) => {
                    &&& !bits_left(old(self).data(), old(self).pos(), count as int)
                    &&& error == BitError::EndOfData
                    &&& final(self).pos() == old(self).pos()
                },
            },
    {
        let start: u64 = self.position;
        let ghost data = self.data@;
        if (self.data.len() as u64) * 8 - start < count as u64 {
            return Err(BitError::EndOfData);
        }
        let mut value: u64 = 0;
        let mut index: u32 = 0;
        while index < count
            invariant
                index <= count <= 32,
                self.wf(),
                self.data@ == data,
                self.position == start + index,
                bits_left(data, start as int, count as int),
                value == bits_value(data, start as int, index as nat),
            decreases count - index,
        {
            proof {
                lemma2_to64();
                bits_value_in_range(data, start as int, index as nat);
                if index < 31 {
                    lemma_pow2_strictly_increases(index as nat, 31);
                }
            }
            match self.get() {
                Ok(bit) => {
                    value = 2 * value + if bit {
                        1
                    } else {
                        0
                    };
                },
                Err(error) => {
                    return Err(error);
                },
            }
            index = index + 1;
        }
        proof {
            lemma2_to64();
            bits_value_in_range(data, start as int, count as nat);
            if count < 32 {
                lemma_pow2_strictly_increases(count as nat, 32);
            }
        }
        Ok(value as u32)
    }

    /// Reads a two's-complement number of `count` bits.
    pub fn get_s(&mut self, count: u32) -> (result: Result<i8, BitError>)
        requires
            old(self).wf(),
            1 <= count <= 8,
        ensures
            final(self).wf(),
            final(self).data() == old(self).data(),
            match result {
                Ok(value) => {
                    &&& bits_left(old(self).data(), old(self).pos(), count as int)
                    &&& value == signed_bits_value(old(self).data(), old(self).pos(), count as nat)
                    &&& final(self).pos() == old(self).pos() + count
                },
                Err(error) => {
                    &&& !bits_left(old(self).data(), old(self).pos(), count as int)
                    &&& error == BitError::EndOfData
                    &&& final(self).pos() == old(self).pos()
                },
            },
    {
        if (self.data.len() as u64) * 8 - self.position < count as u64 {
            return Err(BitError::EndOfData);
        }
        let ghost data = self.data@;
        let ghost start = self.position as int;
        let negative: bool = self.get()?;
        let mut half: i16 = 1;
        let mut doubled: u32 = 1;
        proof {
            lemma2_to64();
        }
        while doubled < count
            invariant
                1 <= doubled <= count <= 8,
                half == pow2((doubled - 1) as nat),
                half <= 128,
            decreases count - doubled,
        {
            proof {
                lemma2_to64();
                lemma_pow2_unfold(doubled as nat);
                if doubled < 7 {
                    lemma_pow2_strictly_increases(doubled as nat, 7);
                }
            }
            half = half * 2;
            doubled = doubled + 1;
        }
        let rest: u32 = self.get_n(count - 1)?;
        proof {
            bits_value_splits_first_bit(data, start, count as nat);
            bits_value_in_range(data, start + 1, (count - 1) as nat);
            signed_bits_value_in_range(data, start, count as nat);
            lemma_pow2_unfold(count as nat);
            assert(0 * half == 0 && 1 * half == half);
        }
        if negative {
            Ok((rest as i16 - half) as i8)
        } else {
            Ok(rest as i8)
        }
    }

    /// Reads one code of `book` and returns its value.
    pub fn get_huffman(&mut self, book: &HuffmanBook) -> (result: Result<i32, BitError>)
        requires
            old(self).wf(),
        ensures
            final(self).wf(),
            final(self).data() == old(self).data(),
            match huffman_entry(book.entries@, old(self).data(), old(self).pos(), 0) {
                Some(entry) => result == Ok::<i32, BitError>(entry.value) && final(self).pos()
                    == old(self).pos() + entry.length,
                None => result == Err::<i32, BitError>(BitError::UnknownCode) && final(self).pos()
                    == old(self).pos(),
            },
    {
        let mut index: usize = 0;
        while index < book.entries.len()
            invariant
                index <= book.entries@.len(),
                self.wf(),
                *self == *old(self),
                huffman_entry(book.entries@, self.data(), self.pos(), 0) == huffman_entry(
                    book.entries@,
                    self.data(),
                    self.pos(),
                    index as int,
                ),
            decreases book.entries.len() - index,
        {
            let entry: HuffmanEntry = book.entries[index];
            if entry.length <= 32 {
                let mut ahead = BitReader { data: self.data, position: self.position };
                if let Ok(code) = ahead.get_n(entry.length) {
                    if code == entry.code {
                        self.position = ahead.position;
                        return Ok(entry.value);
                    }
                }
            }
            index = index + 1;
        }
        Err(BitError::UnknownCode)
    }
}

} // verus!
