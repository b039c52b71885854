//! Big-endian UTF-16: the encoding of text, positions in code units, and the calls into
//! `utf16string` that encode and decode it.
use vstd::prelude::*;

verus! {

/// Number of UTF-16 code units a character takes: one below U+10000, two (a surrogate pair)
/// above.
pub open spec fn char_units(c: char) -> nat {
    if (c as u32) < 0x10000 {
        1
    } else {
        2
    }
}

/// Big-endian UTF-16 bytes of a character.
pub open spec fn char_utf16be(c: char) -> Seq<u8> {
    let v = c as u32 as int;
    if v < 0x10000 {
        seq![(v / 0x100) as u8, (v % 0x100) as u8]
    } else {
        let w = v - 0x10000;
        let hi = 0xD800 + w / 0x400;
        let lo = 0xDC00 + w % 0x400;
        seq![(hi / 0x100) as u8, (hi % 0x100) as u8, (lo / 0x100) as u8, (lo % 0x100) as u8]
    }
}

/// Big-endian UTF-16 encoding of a text.
pub open spec fn utf16be_bytes(s: Seq<char>) -> Seq<u8>
    decreases s.len(),
{
    if s.len() == 0 {
        Seq::empty()
    } else {
        utf16be_bytes(s.drop_last()) + char_utf16be(s.last())
    }
}

/// Length of a text in UTF-16 code units.
pub open spec fn utf16_len(s: Seq<char>) -> nat
    decreases s.len(),
{
    if s.len() == 0 {
        0
    } else {
        utf16_len(s.drop_last()) + char_units(s.last())
    }
}

/// Offset, in UTF-16 code units, of the character at position `i`.
pub open spec fn unit_offset(s: Seq<char>, i: int) -> nat {
    utf16_len(s.take(i))
}

/// Whether the offset `u` (in code units) falls between two characters of `s`, or at one of
/// its ends.
pub open spec fn at_boundary(s: Seq<char>, u: int) -> bool {
    exists|i: int| 0 <= i <= s.len() && unit_offset(s, i) == u
}

/// Position of the character at an offset that falls between characters.
pub open spec fn char_pos(s: Seq<char>, u: int) -> int {
    choose|i: int| 0 <= i <= s.len() && unit_offset(s, i) == u
}

/// The characters between two offsets (in code units) that fall between characters.
pub open spec fn text_between(s: Seq<char>, a: int, b: int) -> Seq<char> {
    s.subrange(char_pos(s, a), char_pos(s, b))
}

pub proof fn lemma_char_bytes_len(c: char)
    ensures
        char_utf16be(c).len() == 2 * char_units(c),
{
}

pub proof fn lemma_bytes_len(s: Seq<char>)
    ensures
        utf16be_bytes(s).len() == 2 * utf16_len(s),
    decreases s.len(),
{
    if s.len() > 0 {
        lemma_bytes_len(s.drop_last());
        lemma_char_bytes_len(s.last());
    }
}

pub proof fn lemma_bytes_concat(a: Seq<char>, b: Seq<char>)
    ensures
        utf16be_bytes(a + b) == utf16be_bytes(a) + utf16be_bytes(b),
        utf16_len(a + b) == utf16_len(a) + utf16_len(b),
    decreases b.len(),
{
    if b.len() == 0 {
        assert(a + b =~= a);
        assert(utf16be_bytes(a) + utf16be_bytes(b) =~= utf16be_bytes(a));
    } else {
        lemma_bytes_concat(a, b.drop_last());
        assert((a + b).drop_last() =~= a + b.drop_last());
        assert((a + b).last() == b.last());
        assert(utf16be_bytes(a + b) =~= utf16be_bytes(a) + utf16be_bytes(b));
    }
}

/// Offsets grow strictly from one character position to the next.
pub proof fn lemma_offset_increasing(s: Seq<char>, i: int, j: int)
    requires
        0 <= i < j <= s.len(),
    ensures
        unit_offset(s, i) < unit_offset(s, j),
{
    let mid = s.subrange(i, j);
    assert(s.take(j) =~= s.take(i) + mid);
    lemma_bytes_concat(s.take(i), mid);
    assert(utf16_len(mid) == utf16_len(mid.drop_last()) + char_units(mid.last()));
}

/// An offset that falls between characters does so at exactly one position.
pub proof fn lemma_char_pos(s: Seq<char>, i: int)
    requires
        0 <= i <= s.len(),
    ensures
        at_boundary(s, unit_offset(s, i) as int),
        char_pos(s, unit_offset(s, i) as int) == i,
{
    let u = unit_offset(s, i) as int;
    assert(0 <= i <= s.len() && unit_offset(s, i) == u);
    let k = char_pos(s, u);
    if k < i {
        lemma_offset_increasing(s, k, i);
    } else if k > i {
        lemma_offset_increasing(s, i, k);
    }
}

/// The whole text ends at its length in code units.
pub proof fn lemma_end_offset(s: Seq<char>)
    ensures
        unit_offset(s, s.len() as int) == utf16_len(s),
{
    assert(s.take(s.len() as int) =~= s);
}

/// The encoding of the characters between two positions is the matching range of the
/// encoding of the whole text.
pub proof fn lemma_bytes_between(s: Seq<char>, i: int, j: int)
    requires
        0 <= i <= j <= s.len(),
    ensures
        utf16be_bytes(s).subrange(2 * unit_offset(s, i) as int, 2 * unit_offset(s, j) as int)
            == utf16be_bytes(s.subrange(i, j)),
{
    let a = s.take(i);
    let m = s.subrange(i, j);
    let z = s.skip(j);
    assert(s =~= a + m + z);
    assert(s.take(j) =~= a + m);
    lemma_bytes_concat(a + m, z);
    lemma_bytes_concat(a, m);
    lemma_bytes_len(a);
    lemma_bytes_len(a + m);
    assert(utf16be_bytes(s).subrange(2 * unit_offset(s, i) as int, 2 * unit_offset(s, j) as int)
        =~= utf16be_bytes(m));
}

/// `WString::<BE>::from(s)`, as its bytes (`into_bytes`). Claimed: the big-endian UTF-16
/// encoding of `s`, which is how `WString::push` encodes each character.
#[verifier::external_body]
pub(crate) fn utf16be_encode(s: &str) -> (r: Vec<u8>)
    ensures
        r@ == utf16be_bytes(s@),
{
    utf16string::WString::<utf16string::BE>::from(s).into_bytes()
}

/// `WStr::<BE>::from_utf16be(bytes)`, then `to_utf8`. The bytes must be valid big-endian
/// UTF-16, which `from_utf16be` checks. Claimed: the string holds the characters that the
/// bytes encode.
#[verifier::external_body]
pub(crate) fn utf16be_decode(bytes: &[u8]) -> (r: String)
    requires
        exists|t: Seq<char>| bytes@ == utf16be_bytes(t),
    ensures
        forall|t: Seq<char>| bytes@ == utf16be_bytes(t) ==> r@ == t,
{
    utf16string::WStr::<utf16string::BE>::from_utf16be(bytes).unwrap().to_utf8()
}

} // verus!
