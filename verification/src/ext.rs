//! Calls into outside crates and into std functions that have no specification.
use vstd::prelude::*;
use crate::numbers::parsed_i32;
use unicode_segmentation::UnicodeSegmentation;

verus! {

/// Result of replacing every match of the regular expression `pattern` in `haystack`
/// with `replacement` (as `regex::Regex::replace_all` does).
pub uninterp spec fn regex_replaced(pattern: Seq<char>, haystack: Seq<char>, replacement: Seq<char>) -> Seq<char>;

/// Whether `pattern` is a regular expression that `regex::Regex::new` accepts.
pub uninterp spec fn regex_compiles(pattern: Seq<char>) -> bool;

/// The extended grapheme clusters of a string, in order (as
/// `UnicodeSegmentation::graphemes(s, true)` yields them).
pub uninterp spec fn extended_graphemes(s: Seq<char>) -> Seq<Seq<char>>;

/// Concatenation of a sequence of strings.
pub open spec fn concat_all(parts: Seq<Seq<char>>) -> Seq<char>
    decreases parts.len(),
{
    if parts.len() == 0 {
        Seq::empty()
    } else {
        concat_all(parts.drop_last()) + parts.last()
    }
}

/// Compiles `pattern` with `regex::Regex::new` and, if it compiles, replaces all its matches
/// in `haystack` with `replacement` using `regex::Regex::replace_all`.
/// Claimed: the result is present exactly when the pattern compiles, and is then the
/// replaced text named by [`regex_replaced`].
#[verifier::external_body]
pub(crate) fn regex_replace_all(pattern: &str, haystack: &str, replacement: &str) -> (r: Option<String>)
    ensures
        r is Some <==> regex_compiles(pattern@),
        r matches Some(s) ==> s@ == regex_replaced(pattern@, haystack@, replacement@),
{
    match regex::Regex::new(pattern) {
        Ok(re) => Some(re.replace_all(haystack, replacement).into_owned()),
        Err(_) => None,
    }
}

/// `UnicodeSegmentation::graphemes(s, true)`, collected. Claimed: the clusters are the ones
/// named by [`extended_graphemes`], none of them is empty, and together they make up `s`.
#[verifier::external_body]
pub(crate) fn graphemes_of(s: &str) -> (r: Vec<String>)
    ensures
        r@.map_values(|g: String| g@) == extended_graphemes(s@),
        forall|i: int| 0 <= i < r@.len() ==> r@[i]@.len() > 0,
        concat_all(r@.map_values(|g: String| g@)) == s@,
{
    s.graphemes(true).map(|g| g.to_owned()).collect()
}

/// Whether a character is a lowercase hexadecimal digit.
pub open spec fn is_lower_hex(c: char) -> bool {
    ('0' <= c && c <= '9') || ('a' <= c && c <= 'f')
}

/// Whether a text is a version 4 UUID of the RFC 4122 variant in its hyphenated lowercase
/// form: 36 characters, hyphens at positions 8, 13, 18 and 23, lowercase hexadecimal digits
/// elsewhere, the version digit `4` at position 14 and a variant digit `8` to `b` at 19.
pub open spec fn v4_uuid_text(s: Seq<char>) -> bool {
    &&& s.len() == 36
    &&& forall|i: int| 0 <= i < 36 ==> if i == 8 || i == 13 || i == 18 || i == 23 {
        #[trigger] s[i] == '-'
    } else {
        is_lower_hex(s[i])
    }
    &&& s[14] == '4'
    &&& (s[19] == '8' || s[19] == '9' || s[19] == 'a' || s[19] == 'b')
}

/// `uuid::Uuid::new_v4` in its textual form. Claimed, as the crate's source shows (`new_v4`
/// masks in the version and variant bits; `Display` writes the lowercase hyphenated form):
/// the text of a version 4 UUID, see [`v4_uuid_text`]. Which UUID comes out is random and is
/// not claimed.
#[verifier::external_body]
pub(crate) fn random_uuid_string() -> (r: String)
    ensures
        v4_uuid_text(r@),
{
    uuid::Uuid::new_v4().to_string()
}

#[verifier::external_type_specification]
#[verifier::external_body]
pub struct ExFxHasher(hashers::fx_hash::FxHasher);

/// `FxHasher::default()`. Nothing is claimed of its state.
#[verifier::external_body]
pub(crate) fn fx_hasher_new() -> (r: hashers::fx_hash::FxHasher) {
    hashers::fx_hash::FxHasher::default()
}

/// `Hasher::write` of `FxHasher`. Nothing is claimed of the new state, which depends on the
/// machine's word size.
#[verifier::external_body]
pub(crate) fn fx_hasher_write(h: &mut hashers::fx_hash::FxHasher, bytes: &[u8]) {
    std::hash::Hasher::write(h, bytes)
}

/// `Hasher::write_u8` of `FxHasher`. Nothing is claimed of the new state.
#[verifier::external_body]
pub(crate) fn fx_hasher_write_u8(h: &mut hashers::fx_hash::FxHasher, b: u8) {
    std::hash::Hasher::write_u8(h, b)
}

/// `Hasher::finish` of `FxHasher`. Nothing is claimed of the value, which depends on the
/// machine's word size.
#[verifier::external_body]
pub(crate) fn fx_hasher_finish(h: &hashers::fx_hash::FxHasher) -> (r: u64) {
    std::hash::Hasher::finish(h)
}

/// `String::from_utf8`. Claimed, as std documents it: the bytes are accepted exactly when
/// they are valid UTF-8, and the string then holds the characters they encode.
#[verifier::external_body]
pub(crate) fn string_from_utf8(bytes: Vec<u8>) -> (r: Option<String>)
    ensures
        r is Some <==> vstd::utf8::valid_utf8(bytes@),
        r matches Some(s) ==> s@ == vstd::utf8::decode_utf8(bytes@),
{
    String::from_utf8(bytes).ok()
}

#[verifier::external_type_specification]
#[verifier::external_body]
pub struct ExInstant(std::time::Instant);

/// `std::time::Instant::now`. Nothing is claimed of the instant, which is the time.
#[verifier::external_body]
pub(crate) fn instant_now() -> (r: std::time::Instant) {
    std::time::Instant::now()
}

/// Milliseconds elapsed since `start` (`Instant::elapsed`, then `Duration::as_millis`).
/// Nothing is claimed of the number, which depends on the time.
#[verifier::external_body]
pub(crate) fn elapsed_millis(start: &std::time::Instant) -> (r: u128) {
    start.elapsed().as_millis()
}

/// The E.164 form of a phone number, as `phonenumber::parse(None, s)` and its E.164 formatter
/// give it, or none where the parse fails.
pub uninterp spec fn e164_of(s: Seq<char>) -> Option<Seq<char>>;

/// `phonenumber::parse(None, s)`, formatted with `Mode::E164`. Claimed: the result is the one
/// named by [`e164_of`], which depends on `s` and the crate's built-in metadata alone. The
/// parse checks the country code against the metadata, so a parsed number always formats.
#[verifier::external_body]
pub(crate) fn phone_e164(s: &str) -> (r: Option<String>)
    ensures
        match r {
            Some(t) => e164_of(s@) == Some(t@),
            None => e164_of(s@) is None,
        },
{
    match phonenumber::parse(None, s) {
        Ok(parsed) => Some(format!("{}", parsed.format().mode(phonenumber::Mode::E164))),
        Err(_) => None,
    }
}

/// The bytes of the UUID `uuid::Uuid::parse_str` reads from a text, or none where it refuses
/// the text.
pub uninterp spec fn parsed_uuid(s: Seq<char>) -> Option<Seq<u8>>;

/// `uuid::Uuid::parse_str`, giving the UUID's bytes. Claimed: the result is the one named by
/// [`parsed_uuid`], which depends on the text alone (the crate accepts the simple, hyphenated,
/// URN and braced forms; which texts it accepts is not stated here).
#[verifier::external_body]
pub(crate) fn parse_uuid_bytes(s: &str) -> (r: Option<[u8; 16]>)
    ensures
        match r {
            Some(b) => parsed_uuid(s@) == Some(b@),
            None => parsed_uuid(s@) is None,
        },
{
    match uuid::Uuid::parse_str(s) {
        Ok(u) => Some(*u.as_bytes()),
        Err(_) => None,
    }
}

/// `str::parse::<i32>`. Claimed, as std documents `i32::from_str_radix` (which `from_str`
/// calls with radix 10): the text is accepted exactly when it is an optional `+` or `-` sign
/// followed by ASCII digits whose value fits, and the result is that value.
#[verifier::external_body]
pub(crate) fn parse_i32(s: &str) -> (r: Option<i32>)
    ensures
        r == parsed_i32(s@),
{
    s.parse::<i32>().ok()
}

} // verus!
