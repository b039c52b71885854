//! What the comparison of two datasets needs to know beyond the entities themselves:
//! which files exist (with their sizes and hashes) and what the coordinate strings parse to.
use vstd::prelude::*;
use crate::files::FileIndex;
use crate::text::str_eq;

verus! {

/// A decimal string and the bits of the 64-bit float it parses to (`None` if it does not parse).
#[derive(Debug)]
pub struct ParsedNumber {
    pub text: String,
    pub bits: Option<u64>,
}

/// Facts about the files and numbers that the entities of a dataset refer to.
#[derive(Debug)]
pub struct Facts {
    pub files: FileIndex,
    pub numbers: Vec<ParsedNumber>,
}

/// Bits of the float the given string parses to, from the first entry for it; a string
/// without an entry does not parse.
pub open spec fn number_bits(numbers: Seq<ParsedNumber>, text: Seq<char>) -> Option<u64>
    decreases numbers.len(),
{
    if numbers.len() == 0 {
        None
    } else if numbers[0].text@ == text {
        numbers[0].bits
    } else {
        number_bits(numbers.drop_first(), text)
    }
}

impl Facts {
    pub fn parsed_number(&self, text: &str) -> (r: Option<u64>)
        ensures
            r == number_bits(self.numbers@, text@),
    {
        let mut i: usize = 0;
        assert(self.numbers@.skip(0) =~= self.numbers@);
        while i < self.numbers.len()
            invariant
                0 <= i <= self.numbers@.len(),
                number_bits(self.numbers@, text@) == number_bits(self.numbers@.skip(i as int), text@),
            decreases self.numbers@.len() - i,
        {
            proof {
                assert(self.numbers@.skip(i as int).drop_first() =~= self.numbers@.skip(i + 1));
            }
            if str_eq(self.numbers[i].text.as_str(), text) {
                return self.numbers[i].bits;
            }
            i = i + 1;
        }
        assert(self.numbers@.skip(i as int).len() == 0);
        None
    }
}

/// Whether the float with these bits is not a number.
pub open spec fn is_nan_bits(b: u64) -> bool {
    (b >> 52u64) & 0x7ffu64 == 0x7ffu64 && (b & 0xfffffffffffffu64) != 0
}

/// Whether the float with these bits is a zero (of either sign).
pub open spec fn is_zero_bits(b: u64) -> bool {
    b & 0x7fffffffffffffffu64 == 0
}

/// Whether two floats, given by their bits, compare equal: a NaN equals nothing and the
/// two zeros are equal.
pub open spec fn float_bits_eq(a: u64, b: u64) -> bool {
    !is_nan_bits(a) && !is_nan_bits(b) && (a == b || (is_zero_bits(a) && is_zero_bits(b)))
}

pub fn float_bits_equal(a: u64, b: u64) -> (r: bool)
    ensures
        r == float_bits_eq(a, b),
{
    let a_nan = (a >> 52u64) & 0x7ffu64 == 0x7ffu64 && (a & 0xfffffffffffffu64) != 0;
    let b_nan = (b >> 52u64) & 0x7ffu64 == 0x7ffu64 && (b & 0xfffffffffffffu64) != 0;
    let a_zero = a & 0x7fffffffffffffffu64 == 0;
    let b_zero = b & 0x7fffffffffffffffu64 == 0;
    !a_nan && !b_nan && (a == b || (a_zero && b_zero))
}

} // verus!
