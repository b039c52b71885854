//! How entities are stored in the rows of the sqlite database and read back: lists of strings
//! joined by a separator, flags as integers, rich text elements, contents and service values
//! by their type name.
use vstd::prelude::*;
use crate::text::{opt_chars, str_eq};
use crate::model::{Content, ContentPhoto, ContentValue, Message, MessageRegular, MessageService, MessageServiceValue,
    MessageTyped, RichTextElement, RteVal};
use crate::ids::UserId;
use crate::searchable::searchable_string_spec;
use vstd::slice::slice_to_vec;
use crate::rich_text::{RichText, link_searchable, normalized_searchable, rte_text};

verus! {

/// Separator of the strings of a list stored in one column.
pub const ARRAY_SEPARATOR: &'static str = ";;;";

/// Strings joined by a separator.
pub open spec fn joined(v: Seq<Seq<char>>, sep: Seq<char>) -> Seq<char>
    decreases v.len(),
{
    if v.len() == 0 {
        Seq::empty()
    } else if v.len() == 1 {
        v[0]
    } else {
        v[0] + sep + joined(v.skip(1), sep)
    }
}

/// Position of the first occurrence of `sep` in `s` at or after `i`.
pub open spec fn occurrence_from(s: Seq<char>, sep: Seq<char>, i: int) -> Option<int>
    decreases s.len() - i,
{
    if i < 0 || sep.len() == 0 || i + sep.len() > s.len() {
        None
    } else if s.subrange(i, i + sep.len()) == sep {
        Some(i)
    } else {
        occurrence_from(s, sep, i + 1)
    }
}

/// `s` cut at each occurrence of `sep`, from left to right.
pub open spec fn split_on(s: Seq<char>, sep: Seq<char>) -> Seq<Seq<char>>
    decreases s.len(),
{
    if sep.len() == 0 {
        seq![s]
    } else {
        match occurrence_from(s, sep, 0) {
            None => seq![s],
            Some(i) => if 0 <= i && i + sep.len() <= s.len() {
                seq![s.take(i)] + split_on(s.skip(i + sep.len()), sep)
            } else {
                seq![s]
            },
        }
    }
}

/// A stored list: nothing for an empty list, the strings joined by the separator otherwise.
pub open spec fn stored_list(v: Seq<Seq<char>>) -> Option<Seq<char>> {
    if v.len() == 0 {
        None
    } else {
        Some(joined(v, ARRAY_SEPARATOR@))
    }
}

/// A list read back: empty for nothing or an empty string, the string cut at each separator
/// otherwise.
pub open spec fn read_list(s: Option<Seq<char>>) -> Seq<Seq<char>> {
    match s {
        None => Seq::empty(),
        Some(t) => if t.len() == 0 {
            Seq::empty()
        } else {
            split_on(t, ARRAY_SEPARATOR@)
        },
    }
}

pub open spec fn views(v: Seq<String>) -> Seq<Seq<char>> {
    v.map_values(|s: String| s@)
}

/// Stores a list of strings in one column, see [`stored_list`].
pub fn serialize_arr(v: &[String]) -> (r: Option<String>)
    ensures
        match r {
            Some(s) => stored_list(views(v@)) == Some(s@),
            None => stored_list(views(v@)) is None,
        },
{
    if v.len() == 0 {
        return None;
    }
    let n = v.len();
    let mut out = String::new();
    let mut i: usize = n;
    proof {
        reveal_strlit(";;;");
    }
    // Built from the end, so that each step puts one string and a separator in front.
    let ghost vs = views(v@);
    out.append(v[n - 1].as_str());
    proof {
        assert(vs.skip(n - 1) =~= seq![vs[n - 1]]);
        assert(out@ == joined(vs.skip(n - 1), ARRAY_SEPARATOR@));
    }
    i = n - 1;
    while i > 0
        invariant
            n == v@.len(),
            vs == views(v@),
            0 <= i < n,
            out@ == joined(vs.skip(i as int), ARRAY_SEPARATOR@),
        decreases i,
    {
        let mut front = String::new();
        front.append(v[i - 1].as_str());
        front.append(ARRAY_SEPARATOR);
        front.append(out.as_str());
        proof {
            let t = vs.skip(i - 1);
            assert(t[0] == vs[i - 1]);
            assert(t.skip(1) =~= vs.skip(i as int));
            assert(t.len() > 1);
        }
        out = front;
        i = i - 1;
    }
    proof {
        assert(vs.skip(0) =~= vs);
    }
    Some(out)
}

/// Whether `sep` occurs in `s` at position `i`.
fn occurs_at(s: &str, sep: &str, i: usize) -> (r: bool)
    requires
        i <= s@.len(),
    ensures
        r == (i + sep@.len() <= s@.len() && s@.subrange(i as int, i + sep@.len()) == sep@),
{
    let n = s.unicode_len();
    let m = sep.unicode_len();
    if m > n || i > n - m {
        return false;
    }
    let mut k: usize = 0;
    while k < m
        invariant
            n == s@.len(),
            m == sep@.len(),
            i + m <= n,
            k <= m,
            forall|j: int| 0 <= j < k ==> s@[i + j] == sep@[j],
        decreases m - k,
    {
        if s.get_char(i + k) != sep.get_char(k) {
            proof {
                assert(s@.subrange(i as int, i + m)[k as int] != sep@[k as int]);
            }
            return false;
        }
        k = k + 1;
    }
    proof {
        assert(s@.subrange(i as int, i + m) =~= sep@);
    }
    true
}

proof fn lemma_occurrence_skip(s: Seq<char>, sep: Seq<char>, p: int, i: int)
    requires
        0 <= p <= i,
        p <= s.len(),
    ensures
        occurrence_from(s.skip(p), sep, i - p) == match occurrence_from(s, sep, i) {
            Some(j) => Some(j - p),
            None => None,
        },
    decreases s.len() - i,
{
    if sep.len() == 0 || i + sep.len() > s.len() {
    } else {
        assert(s.skip(p).subrange(i - p, i - p + sep.len()) =~= s.subrange(i, i + sep.len()));
        lemma_occurrence_skip(s, sep, p, i + 1);
    }
}

/// Reads a list of strings back from its column, see [`read_list`].
pub fn deserialize_arr(v: Option<String>) -> (r: Vec<String>)
    ensures
        views(r@) == read_list(match v {
            Some(s) => Some(s@),
            None => None,
        }),
{
    let s = match v {
        None => {
            return Vec::new();
        },
        Some(s) => s,
    };
    let n = s.unicode_len();
    if n == 0 {
        return Vec::new();
    }
    proof {
        reveal_strlit(";;;");
    }
    let ghost sv = s@;
    let ghost sep = ARRAY_SEPARATOR@;
    let mut out: Vec<String> = Vec::new();
    let mut p: usize = 0;
    let mut i: usize = 0;
    proof {
        assert(sv.skip(0) =~= sv);
    }
    while i < n
        invariant
            n == sv.len(),
            sv == s@,
            sep == ARRAY_SEPARATOR@,
            sep.len() == 3,
            p <= i <= n,
            views(out@) + split_on(sv.skip(p as int), sep) == split_on(sv, sep),
            occurrence_from(sv.skip(p as int), sep, 0) == occurrence_from(sv.skip(p as int), sep, i - p),
        decreases n - i, n - p,
    {
        if occurs_at(s.as_str(), ARRAY_SEPARATOR, i) {
            let piece = s.as_str().substring_char(p, i).to_owned();
            let ghost rest = sv.skip(p as int);
            proof {
                lemma_occurrence_skip(sv, sep, p as int, i as int);
                assert(occurrence_from(rest, sep, i - p) == Some(i - p));
                assert(rest.take(i - p) =~= piece@);
                assert(rest.skip(i - p + 3) =~= sv.skip(i + 3));
                assert(split_on(rest, sep) == seq![piece@] + split_on(sv.skip(i + 3), sep));
                assert(views(out@.push(piece)) =~= views(out@).push(piece@));
                assert(views(out@).push(piece@) + split_on(sv.skip(i + 3), sep)
                    =~= views(out@) + (seq![piece@] + split_on(sv.skip(i + 3), sep)));
            }
            out.push(piece);
            p = i + 3;
            i = p;
            proof {
                assert(sv.skip(p as int).len() >= 0);
            }
        } else {
            proof {
                let rest = sv.skip(p as int);
                lemma_occurrence_skip(sv, sep, p as int, i as int);
                lemma_occurrence_skip(sv, sep, p as int, i + 1);
                assert(occurrence_from(rest, sep, i - p) == occurrence_from(rest, sep, i - p + 1)) by {
                    if i - p + 3 <= rest.len() {
                        assert(rest.subrange(i - p, i - p + 3) =~= sv.subrange(i as int, i + 3));
                    }
                }
            }
            i = i + 1;
        }
    }
    let piece = s.as_str().substring_char(p, n).to_owned();
    proof {
        let rest = sv.skip(p as int);
        assert(piece@ =~= rest);
        assert(occurrence_from(rest, sep, i - p) is None);
        assert(split_on(rest, sep) == seq![rest]);
        assert(views(out@.push(piece)) =~= views(out@) + seq![rest]);
    }
    out.push(piece);
    out
}

/// Whether no string of a list holds a semicolon.
pub open spec fn semicolon_free(v: Seq<Seq<char>>) -> bool {
    forall|i: int, j: int| 0 <= i < v.len() && 0 <= j < v[i].len() ==> #[trigger] v[i][j] != ';'
}

proof fn lemma_first_occurrence_at(x: Seq<char>, sep: Seq<char>, i: int, k: int)
    requires
        sep == ARRAY_SEPARATOR@,
        sep.len() == 3,
        0 <= i <= k,
        k + 3 <= x.len(),
        x.subrange(k, k + 3) == sep,
        forall|j: int| i <= j < k ==> x[j] != ';',
    ensures
        occurrence_from(x, sep, i) == Some(k),
    decreases k - i,
{
    reveal_strlit(";;;");
    if i < k {
        assert(x.subrange(i, i + 3)[0] == x[i]);
        lemma_first_occurrence_at(x, sep, i + 1, k);
    }
}

proof fn lemma_no_occurrence(x: Seq<char>, sep: Seq<char>, i: int)
    requires
        sep == ARRAY_SEPARATOR@,
        sep.len() == 3,
        0 <= i,
        forall|j: int| 0 <= j < x.len() ==> x[j] != ';',
    ensures
        occurrence_from(x, sep, i) is None,
    decreases x.len() - i,
{
    reveal_strlit(";;;");
    if i + 3 <= x.len() {
        assert(x.subrange(i, i + 3)[0] == x[i]);
        lemma_no_occurrence(x, sep, i + 1);
    }
}

proof fn lemma_split_joined(v: Seq<Seq<char>>)
    requires
        v.len() >= 1,
        semicolon_free(v),
    ensures
        split_on(joined(v, ARRAY_SEPARATOR@), ARRAY_SEPARATOR@) == v,
    decreases v.len(),
{
    reveal_strlit(";;;");
    let sep = ARRAY_SEPARATOR@;
    if v.len() == 1 {
        assert forall|j: int| 0 <= j < v[0].len() implies v[0][j] != ';' by {
            assert(v[0][j] != ';');
        }
        lemma_no_occurrence(v[0], sep, 0);
        assert(seq![v[0]] =~= v);
    } else {
        let t = v.skip(1);
        assert(semicolon_free(t)) by {
            assert forall|i: int, j: int| 0 <= i < t.len() && 0 <= j < t[i].len() implies #[trigger] t[i][j] != ';' by {
                assert(t[i] == v[i + 1]);
                assert(v[i + 1][j] != ';');
            }
        }
        lemma_split_joined(t);
        let jt = joined(t, sep);
        let x = v[0] + sep + jt;
        let k = v[0].len() as int;
        assert(x.subrange(k, k + 3) =~= sep);
        assert forall|j: int| 0 <= j < k implies x[j] != ';' by {
            assert(x[j] == v[0][j]);
            assert(v[0][j] != ';');
        }
        lemma_first_occurrence_at(x, sep, 0, k);
        assert(x.take(k) =~= v[0]);
        assert(x.skip(k + 3) =~= jt);
        assert(seq![v[0]] + t =~= v);
    }
}

/// A list of strings without semicolons is read back as it was stored, except a list of one
/// empty string, which is read back as an empty list.
pub proof fn law_list_round_trip(v: Seq<Seq<char>>)
    requires
        semicolon_free(v),
        !(v.len() == 1 && v[0].len() == 0),
    ensures
        read_list(stored_list(v)) == v,
{
    reveal_strlit(";;;");
    if v.len() > 0 {
        lemma_split_joined(v);
        if v.len() >= 2 {
            assert(joined(v, ARRAY_SEPARATOR@).len() >= 3);
        }
    } else {
        assert(read_list(None) =~= v);
    }
}

//
// Flags
//

/// A flag as it is stored.
pub open spec fn stored_flag(b: bool) -> i32 {
    if b {
        1
    } else {
        0
    }
}

/// Stores a flag as an integer.
pub fn serialize_bool(b: bool) -> (r: i32)
    ensures
        r == stored_flag(b),
{
    if b {
        1
    } else {
        0
    }
}

/// Whether an integer is a stored flag.
pub open spec fn is_flag(i: i32) -> bool {
    i == 0 || i == 1
}

/// Reads a stored flag back.
pub fn deserialize_bool(i: i32) -> (r: bool)
    requires
        is_flag(i),
    ensures
        r == (i == 1),
{
    i == 1
}

//
// Rich text
//

/// Why a stored row could not be read back.
#[derive(Clone, Copy, Debug, PartialEq, Eq, Structural)]
pub enum MappingError {
    /// A rich text element other than a link has no text.
    MissingText,
    /// A link has no address.
    MissingHref,
    UnknownRichTextElement,
    /// A content lacks a field its type needs.
    MissingContentField,
    UnknownContentType,
    /// A service message lacks the content row its subtype needs.
    MissingServiceContent,
    /// A service message's content row lacks a field its subtype needs.
    MissingServiceField,
    UnknownServiceSubtype,
    UnknownMessageType,
}

/// A stored rich text element.
#[derive(Debug)]
pub struct RawRichTextElement {
    pub id: Option<i64>,
    pub message_internal_id: Option<i64>,
    pub element_type: String,
    pub text: Option<String>,
    pub href: Option<String>,
    pub hidden: Option<i32>,
    pub language: Option<String>,
}

/// Name a rich text element is stored under.
pub open spec fn rte_type_name(v: RteVal) -> Seq<char> {
    match v {
        RteVal::Plain { .. } => "plain"@,
        RteVal::Bold { .. } => "bold"@,
        RteVal::Italic { .. } => "italic"@,
        RteVal::Underline { .. } => "underline"@,
        RteVal::Strikethrough { .. } => "strikethrough"@,
        RteVal::Link { .. } => "link"@,
        RteVal::PrefmtInline { .. } => "prefmt_inline"@,
        RteVal::PrefmtBlock { .. } => "prefmt_block"@,
        RteVal::Blockquote { .. } => "blockquote"@,
        RteVal::Spoiler { .. } => "spoiler"@,
    }
}

/// Whether `raw` is how a rich text element is stored: under its name, with its text, and for
/// a link its address and whether it is hidden, for a preformatted block its language. The
/// element's IDs are left for the database.
pub open spec fn raw_of_rte(v: RteVal, raw: RawRichTextElement) -> bool {
    &&& raw.id is None && raw.message_internal_id is None
    &&& raw.element_type@ == rte_type_name(v)
    &&& match v {
        RteVal::Link { text_option, href, hidden } => {
            &&& raw.text == text_option
            &&& raw.href == Some(href)
            &&& raw.hidden == Some(stored_flag(hidden))
            &&& raw.language is None
        },
        RteVal::PrefmtBlock { text, language_option } => {
            &&& raw.text == Some(text)
            &&& raw.href is None && raw.hidden is None
            &&& raw.language == language_option
        },
        _ => {
            &&& raw.text == Some(plain_text_of(v))
            &&& raw.href is None && raw.hidden is None && raw.language is None
        },
    }
}

/// The text of an element that always has one.
pub open spec fn plain_text_of(v: RteVal) -> String {
    match v {
        RteVal::Plain { text } => text,
        RteVal::Bold { text } => text,
        RteVal::Italic { text } => text,
        RteVal::Underline { text } => text,
        RteVal::Strikethrough { text } => text,
        RteVal::PrefmtInline { text } => text,
        RteVal::PrefmtBlock { text, .. } => text,
        RteVal::Blockquote { text } => text,
        RteVal::Spoiler { text } => text,
        RteVal::Link { href, .. } => href,
    }
}

/// The element a stored row stands for, by its name; elements other than links need a text,
/// links need an address and are shown unless stored as hidden.
pub open spec fn rte_of_raw(raw: RawRichTextElement) -> Result<RteVal, MappingError> {
    let t = raw.element_type@;
    if t == "link"@ {
        match raw.href {
            Some(href) => Ok(RteVal::Link { text_option: raw.text, href, hidden: raw.hidden == Some(1i32) }),
            None => Err(MappingError::MissingHref),
        }
    } else if t == "plain"@ || t == "bold"@ || t == "italic"@ || t == "underline"@ || t == "strikethrough"@
        || t == "prefmt_inline"@ || t == "prefmt_block"@ || t == "blockquote"@ || t == "spoiler"@ {
        match raw.text {
            None => Err(MappingError::MissingText),
            Some(text) => Ok(
                if t == "plain"@ {
                    RteVal::Plain { text }
                } else if t == "bold"@ {
                    RteVal::Bold { text }
                } else if t == "italic"@ {
                    RteVal::Italic { text }
                } else if t == "underline"@ {
                    RteVal::Underline { text }
                } else if t == "strikethrough"@ {
                    RteVal::Strikethrough { text }
                } else if t == "prefmt_inline"@ {
                    RteVal::PrefmtInline { text }
                } else if t == "prefmt_block"@ {
                    RteVal::PrefmtBlock { text, language_option: raw.language }
                } else if t == "blockquote"@ {
                    RteVal::Blockquote { text }
                } else {
                    RteVal::Spoiler { text }
                },
            ),
        }
    } else {
        Err(MappingError::UnknownRichTextElement)
    }
}

/// Searchable string of an element's value.
pub open spec fn val_searchable(v: RteVal) -> Seq<char> {
    match v {
        RteVal::Link { text_option, href, .. } => link_searchable(opt_chars(text_option), href@),
        _ => normalized_searchable(rte_text(v).unwrap()),
    }
}

/// Whether a stored row can be read back: a link's hidden flag is a flag.
pub open spec fn raw_rte_readable(raw: RawRichTextElement) -> bool {
    raw.element_type@ == "link"@ ==> match raw.hidden {
        Some(h) => is_flag(h),
        None => true,
    }
}

fn clone_opt_string(o: &Option<String>) -> (r: Option<String>)
    ensures
        r == *o,
{
    match o {
        Some(s) => Some(s.clone()),
        None => None,
    }
}

/// How a rich text element is stored, see [`raw_of_rte`].
pub fn serialize_rte(rte: &RichTextElement) -> (r: RawRichTextElement)
    requires
        rte.val is Some,
    ensures
        raw_of_rte(rte.val.unwrap(), r),
{
    let (text, tpe, href, hidden, language): (Option<String>, &str, Option<String>, Option<i32>, Option<String>) =
        match rte.val.as_ref().unwrap() {
            RteVal::Plain { text } => (Some(text.clone()), "plain", None, None, None),
            RteVal::Bold { text } => (Some(text.clone()), "bold", None, None, None),
            RteVal::Italic { text } => (Some(text.clone()), "italic", None, None, None),
            RteVal::Underline { text } => (Some(text.clone()), "underline", None, None, None),
            RteVal::Strikethrough { text } => (Some(text.clone()), "strikethrough", None, None, None),
            RteVal::Link { text_option, href, hidden } =>
                (clone_opt_string(text_option), "link", Some(href.clone()), Some(serialize_bool(*hidden)), None),
            RteVal::PrefmtInline { text } => (Some(text.clone()), "prefmt_inline", None, None, None),
            RteVal::PrefmtBlock { text, language_option } =>
                (Some(text.clone()), "prefmt_block", None, None, clone_opt_string(language_option)),
            RteVal::Blockquote { text } => (Some(text.clone()), "blockquote", None, None, None),
            RteVal::Spoiler { text } => (Some(text.clone()), "spoiler", None, None, None),
        };
    RawRichTextElement {
        id: None,
        message_internal_id: None,
        element_type: tpe.to_owned(),
        text,
        href,
        hidden,
        language,
    }
}

/// The rich text element a stored row stands for, see [`rte_of_raw`].
pub fn deserialize_rte(raw: RawRichTextElement) -> (r: Result<RichTextElement, MappingError>)
    requires
        raw_rte_readable(raw),
    ensures
        match rte_of_raw(raw) {
            Ok(v) => r matches Ok(e) && e.val == Some(v) && e.searchable_string@ == val_searchable(v),
            Err(err) => r == Err::<RichTextElement, MappingError>(err),
        },
{
    let t = raw.element_type.as_str();
    if str_eq(t, "link") {
        return match raw.href {
            Some(href) => {
                let hidden = match raw.hidden {
                    Some(h) => deserialize_bool(h),
                    None => false,
                };
                Ok(RichText::make_link(raw.text, href, hidden))
            },
            None => Err(MappingError::MissingHref),
        };
    }
    let known = str_eq(t, "plain") || str_eq(t, "bold") || str_eq(t, "italic") || str_eq(t, "underline")
        || str_eq(t, "strikethrough") || str_eq(t, "prefmt_inline") || str_eq(t, "prefmt_block")
        || str_eq(t, "blockquote") || str_eq(t, "spoiler");
    if !known {
        return Err(MappingError::UnknownRichTextElement);
    }
    let text = match raw.text {
        None => {
            return Err(MappingError::MissingText);
        },
        Some(text) => text,
    };
    if str_eq(t, "plain") {
        Ok(RichText::make_plain(text))
    } else if str_eq(t, "bold") {
        Ok(RichText::make_bold(text))
    } else if str_eq(t, "italic") {
        Ok(RichText::make_italic(text))
    } else if str_eq(t, "underline") {
        Ok(RichText::make_underline(text))
    } else if str_eq(t, "strikethrough") {
        Ok(RichText::make_strikethrough(text))
    } else if str_eq(t, "prefmt_inline") {
        Ok(RichText::make_prefmt_inline(text))
    } else if str_eq(t, "prefmt_block") {
        Ok(RichText::make_prefmt_block(text, raw.language))
    } else if str_eq(t, "blockquote") {
        Ok(RichText::make_blockquote(text))
    } else {
        Ok(RichText::make_spoiler(text))
    }
}

/// What is stored of a rich text element is read back as the same element.
pub proof fn law_rte_round_trip(v: RteVal, raw: RawRichTextElement)
    requires
        raw_of_rte(v, raw),
    ensures
        rte_of_raw(raw) == Ok::<RteVal, MappingError>(v),
        raw_rte_readable(raw),
{
    reveal_strlit("plain");
    reveal_strlit("bold");
    reveal_strlit("italic");
    reveal_strlit("underline");
    reveal_strlit("strikethrough");
    reveal_strlit("link");
    reveal_strlit("prefmt_inline");
    reveal_strlit("prefmt_block");
    reveal_strlit("blockquote");
    reveal_strlit("spoiler");
    let t = raw.element_type@;
    // The stored name is the element's; names of equal length differ in their first character.
    match v {
        RteVal::Plain { .. } => {
            assert(t =~= "plain"@);
            assert(rte_of_raw(raw) == Ok::<RteVal, MappingError>(v));
        },
        RteVal::Bold { .. } => {
            assert(t =~= "bold"@);
            assert(t[0] != "link"@[0]);
            assert(rte_of_raw(raw) == Ok::<RteVal, MappingError>(v));
        },
        RteVal::Italic { .. } => {
            assert(t =~= "italic"@);
            assert(rte_of_raw(raw) == Ok::<RteVal, MappingError>(v));
        },
        RteVal::Underline { .. } => {
            assert(t =~= "underline"@);
            assert(rte_of_raw(raw) == Ok::<RteVal, MappingError>(v));
        },
        RteVal::Strikethrough { .. } => {
            assert(t =~= "strikethrough"@);
            assert(rte_of_raw(raw) == Ok::<RteVal, MappingError>(v));
        },
        RteVal::Link { .. } => {
            assert(t =~= "link"@);
            assert(rte_of_raw(raw) == Ok::<RteVal, MappingError>(v));
        },
        RteVal::PrefmtInline { .. } => {
            assert(t =~= "prefmt_inline"@);
            assert(t[0] != "strikethrough"@[0]);
            assert(rte_of_raw(raw) == Ok::<RteVal, MappingError>(v));
        },
        RteVal::PrefmtBlock { .. } => {
            assert(t =~= "prefmt_block"@);
            assert(rte_of_raw(raw) == Ok::<RteVal, MappingError>(v));
        },
        RteVal::Blockquote { .. } => {
            assert(t =~= "blockquote"@);
            assert(rte_of_raw(raw) == Ok::<RteVal, MappingError>(v));
        },
        RteVal::Spoiler { .. } => {
            assert(t =~= "spoiler"@);
            assert(rte_of_raw(raw) == Ok::<RteVal, MappingError>(v));
        },
    }
}

//
// Contents
//

/// A stored content row. Columns a content type does not use are empty.
#[derive(Debug)]
pub struct RawMessageContent {
    pub element_type: String,
    pub path: Option<String>,
    pub file_name: Option<String>,
    pub width: Option<i32>,
    pub height: Option<i32>,
    pub mime_type: Option<String>,
    pub thumbnail_path: Option<String>,
    pub emoji: Option<String>,
    pub title: Option<String>,
    pub performer: Option<String>,
    pub duration_sec: Option<i32>,
    pub is_one_time: Option<i32>,
    pub lat: Option<String>,
    pub lon: Option<String>,
    pub address: Option<String>,
    pub poll_question: Option<String>,
    pub first_name: Option<String>,
    pub last_name: Option<String>,
    pub phone_number: Option<String>,
    pub discard_reason: Option<String>,
    pub members: Option<String>,
    pub pinned_message_id: Option<i64>,
    pub is_blocked: Option<i32>,
}

/// A row of the given type with every other column empty.
pub open spec fn blank_row(et: String) -> RawMessageContent {
    RawMessageContent {
        element_type: et,
        path: None,
        file_name: None,
        width: None,
        height: None,
        mime_type: None,
        thumbnail_path: None,
        emoji: None,
        title: None,
        performer: None,
        duration_sec: None,
        is_one_time: None,
        lat: None,
        lon: None,
        address: None,
        poll_question: None,
        first_name: None,
        last_name: None,
        phone_number: None,
        discard_reason: None,
        members: None,
        pinned_message_id: None,
        is_blocked: None,
    }
}

fn blank(et: &str) -> (r: RawMessageContent)
    ensures
        r == blank_row(r.element_type),
        r.element_type@ == et@,
{
    RawMessageContent {
        element_type: et.to_owned(),
        path: None,
        file_name: None,
        width: None,
        height: None,
        mime_type: None,
        thumbnail_path: None,
        emoji: None,
        title: None,
        performer: None,
        duration_sec: None,
        is_one_time: None,
        lat: None,
        lon: None,
        address: None,
        poll_question: None,
        first_name: None,
        last_name: None,
        phone_number: None,
        discard_reason: None,
        members: None,
        pinned_message_id: None,
        is_blocked: None,
    }
}

/// Name a content type is stored under.
pub open spec fn content_type_name(v: ContentValue) -> Seq<char> {
    match v {
        ContentValue::Sticker { .. } => "sticker"@,
        ContentValue::Photo(_) => "photo"@,
        ContentValue::VoiceMsg { .. } => "voice_message"@,
        ContentValue::Audio { .. } => "audio"@,
        ContentValue::VideoMsg { .. } => "video_message"@,
        ContentValue::Video { .. } => "video"@,
        ContentValue::File { .. } => "file"@,
        ContentValue::Location { .. } => "location"@,
        ContentValue::Poll { .. } => "poll"@,
        ContentValue::SharedContact { .. } => "shared_contact"@,
        ContentValue::TodoList { .. } => "todo_list"@,
    }
}

/// How a photo is stored, under the given type name.
pub open spec fn photo_row(p: ContentPhoto, et: String) -> RawMessageContent {
    RawMessageContent {
        path: p.path_option,
        width: Some(p.width),
        height: Some(p.height),
        mime_type: p.mime_type_option,
        is_one_time: Some(stored_flag(p.is_one_time)),
        ..blank_row(et)
    }
}

/// How a content is stored, under the given type name: each field in its column.
pub open spec fn content_row(v: ContentValue, et: String) -> RawMessageContent {
    match v {
        ContentValue::Sticker {
            path_option, file_name_option, width, height, mime_type_option, thumbnail_path_option, emoji_option,
        } => RawMessageContent {
            path: path_option,
            file_name: file_name_option,
            width: Some(width),
            height: Some(height),
            mime_type: mime_type_option,
            thumbnail_path: thumbnail_path_option,
            emoji: emoji_option,
            ..blank_row(et)
        },
        ContentValue::Photo(p) => photo_row(p, et),
        ContentValue::VoiceMsg { path_option, file_name_option, mime_type, duration_sec_option } => RawMessageContent {
            path: path_option,
            file_name: file_name_option,
            mime_type: Some(mime_type),
            duration_sec: duration_sec_option,
            ..blank_row(et)
        },
        ContentValue::Audio {
            path_option, file_name_option, title_option, performer_option, mime_type, duration_sec_option,
            thumbnail_path_option,
        } => RawMessageContent {
            path: path_option,
            file_name: file_name_option,
            title: title_option,
            performer: performer_option,
            mime_type: Some(mime_type),
            duration_sec: duration_sec_option,
            thumbnail_path: thumbnail_path_option,
            ..blank_row(et)
        },
        ContentValue::VideoMsg {
            path_option, file_name_option, width, height, mime_type, duration_sec_option, thumbnail_path_option,
            is_one_time,
        } => RawMessageContent {
            path: path_option,
            file_name: file_name_option,
            width: Some(width),
            height: Some(height),
            mime_type: Some(mime_type),
            duration_sec: duration_sec_option,
            thumbnail_path: thumbnail_path_option,
            is_one_time: Some(stored_flag(is_one_time)),
            ..blank_row(et)
        },
        ContentValue::Video {
            path_option, file_name_option, title_option, performer_option, width, height, mime_type,
            duration_sec_option, thumbnail_path_option, is_one_time,
        } => RawMessageContent {
            path: path_option,
            file_name: file_name_option,
            title: title_option,
            performer: performer_option,
            width: Some(width),
            height: Some(height),
            mime_type: Some(mime_type),
            duration_sec: duration_sec_option,
            thumbnail_path: thumbnail_path_option,
            is_one_time: Some(stored_flag(is_one_time)),
            ..blank_row(et)
        },
        ContentValue::File { path_option, file_name_option, mime_type_option, thumbnail_path_option } =>
            RawMessageContent {
                path: path_option,
                file_name: file_name_option,
                mime_type: mime_type_option,
                thumbnail_path: thumbnail_path_option,
                ..blank_row(et)
            },
        ContentValue::Location { title_option, address_option, lat_str, lon_str, duration_sec_option } =>
            RawMessageContent {
                title: title_option,
                address: address_option,
                lat: Some(lat_str),
                lon: Some(lon_str),
                duration_sec: duration_sec_option,
                ..blank_row(et)
            },
        ContentValue::Poll { question } => RawMessageContent { poll_question: Some(question), ..blank_row(et) },
        ContentValue::SharedContact { first_name_option, last_name_option, phone_number_option, vcard_path_option } =>
            RawMessageContent {
                path: vcard_path_option,
                first_name: first_name_option,
                last_name: last_name_option,
                phone_number: phone_number_option,
                ..blank_row(et)
            },
        ContentValue::TodoList { .. } => blank_row(et),
    }
}

/// Files a stored content refers to, which are copied along with it: its file, then its
/// thumbnail.
pub open spec fn stored_files(v: ContentValue) -> Seq<Seq<char>> {
    let row = content_row(v, arbitrary());
    opt_seq_chars(row.path) + opt_seq_chars(row.thumbnail_path)
}

pub open spec fn opt_seq_chars(o: Option<String>) -> Seq<Seq<char>> {
    match o {
        Some(s) => seq![s@],
        None => Seq::empty(),
    }
}

/// Contents that can be stored: to-do lists have no row type.
pub open spec fn content_storable(c: Content) -> bool {
    c.sealed_value_optional matches Some(v) && !(v is TodoList)
}

/// A photo read back from its row; its size and one-time flag are needed.
pub open spec fn photo_of_raw(raw: RawMessageContent) -> Result<ContentPhoto, MappingError> {
    match (raw.width, raw.height, raw.is_one_time) {
        (Some(width), Some(height), Some(f)) => Ok(ContentPhoto {
            path_option: raw.path,
            width,
            height,
            mime_type_option: raw.mime_type,
            is_one_time: f == 1,
        }),
        _ => Err(MappingError::MissingContentField),
    }
}

/// The content a stored row stands for, by its type name; each type needs some of its
/// columns filled (sizes, MIME types of media that must have one, coordinates, the poll
/// question, one-time flags).
pub open spec fn content_of_raw(raw: RawMessageContent) -> Result<ContentValue, MappingError> {
    let t = raw.element_type@;
    if t == "sticker"@ {
        match (raw.width, raw.height) {
            (Some(width), Some(height)) => Ok(ContentValue::Sticker {
                path_option: raw.path,
                file_name_option: raw.file_name,
                width,
                height,
                mime_type_option: raw.mime_type,
                thumbnail_path_option: raw.thumbnail_path,
                emoji_option: raw.emoji,
            }),
            _ => Err(MappingError::MissingContentField),
        }
    } else if t == "photo"@ {
        match photo_of_raw(raw) {
            Ok(p) => Ok(ContentValue::Photo(p)),
            Err(e) => Err(e),
        }
    } else if t == "voice_message"@ {
        match raw.mime_type {
            Some(mime_type) => Ok(ContentValue::VoiceMsg {
                path_option: raw.path,
                file_name_option: raw.file_name,
                mime_type,
                duration_sec_option: raw.duration_sec,
            }),
            None => Err(MappingError::MissingContentField),
        }
    } else if t == "audio"@ {
        match raw.mime_type {
            Some(mime_type) => Ok(ContentValue::Audio {
                path_option: raw.path,
                file_name_option: raw.file_name,
                title_option: raw.title,
                performer_option: raw.performer,
                mime_type,
                duration_sec_option: raw.duration_sec,
                thumbnail_path_option: raw.thumbnail_path,
            }),
            None => Err(MappingError::MissingContentField),
        }
    } else if t == "video_message"@ {
        match (raw.width, raw.height, raw.mime_type, raw.is_one_time) {
            (Some(width), Some(height), Some(mime_type), Some(f)) => Ok(ContentValue::VideoMsg {
                path_option: raw.path,
                file_name_option: raw.file_name,
                width,
                height,
                mime_type,
                duration_sec_option: raw.duration_sec,
                thumbnail_path_option: raw.thumbnail_path,
                is_one_time: f == 1,
            }),
            _ => Err(MappingError::MissingContentField),
        }
    } else if t == "video"@ {
        match (raw.width, raw.height, raw.mime_type, raw.is_one_time) {
            (Some(width), Some(height), Some(mime_type), Some(f)) => Ok(ContentValue::Video {
                path_option: raw.path,
                file_name_option: raw.file_name,
                title_option: raw.title,
                performer_option: raw.performer,
                width,
                height,
                mime_type,
                duration_sec_option: raw.duration_sec,
                thumbnail_path_option: raw.thumbnail_path,
                is_one_time: f == 1,
            }),
            _ => Err(MappingError::MissingContentField),
        }
    } else if t == "file"@ {
        Ok(ContentValue::File {
            path_option: raw.path,
            file_name_option: raw.file_name,
            mime_type_option: raw.mime_type,
            thumbnail_path_option: raw.thumbnail_path,
        })
    } else if t == "location"@ {
        match (raw.lat, raw.lon) {
            (Some(lat_str), Some(lon_str)) => Ok(ContentValue::Location {
                title_option: raw.title,
                address_option: raw.address,
                lat_str,
                lon_str,
                duration_sec_option: raw.duration_sec,
            }),
            _ => Err(MappingError::MissingContentField),
        }
    } else if t == "poll"@ {
        match raw.poll_question {
            Some(question) => Ok(ContentValue::Poll { question }),
            None => Err(MappingError::MissingContentField),
        }
    } else if t == "shared_contact"@ {
        Ok(ContentValue::SharedContact {
            first_name_option: raw.first_name,
            last_name_option: raw.last_name,
            phone_number_option: raw.phone_number,
            vcard_path_option: raw.path,
        })
    } else {
        Err(MappingError::UnknownContentType)
    }
}

/// Whether a stored row can be read back: the one-time flag of a photo or video is a flag.
pub open spec fn raw_content_readable(raw: RawMessageContent) -> bool {
    let t = raw.element_type@;
    (t == "photo"@ || t == "video_message"@ || t == "video"@) ==> match raw.is_one_time {
        Some(f) => is_flag(f),
        None => true,
    }
}

fn push_opt_clone(v: &mut Vec<String>, o: &Option<String>)
    ensures
        views(final(v)@) == views(old(v)@) + opt_seq_chars(*o),
{
    let ghost before = views(v@);
    if let Some(s) = o {
        v.push(s.clone());
    }
    proof {
        assert(views(v@) =~= before + opt_seq_chars(*o));
    }
}

/// How a content is stored, with the relative paths of the files to copy along with it (its
/// file, then its thumbnail): the files keep their relative paths.
pub fn serialize_content(c: &Content) -> (r: (RawMessageContent, Vec<String>))
    requires
        content_storable(*c),
    ensures
        r.0.element_type@ == content_type_name(c.sealed_value_optional.unwrap()),
        r.0 == content_row(c.sealed_value_optional.unwrap(), r.0.element_type),
        views(r.1@) == stored_files(c.sealed_value_optional.unwrap()),
{
    let v = c.sealed_value_optional.as_ref().unwrap();
    let r = match v {
        ContentValue::Sticker {
            path_option, file_name_option, width, height, mime_type_option, thumbnail_path_option, emoji_option,
        } => {
            let mut r = blank("sticker");
            r.path = clone_opt_string(path_option);
            r.file_name = clone_opt_string(file_name_option);
            r.width = Some(*width);
            r.height = Some(*height);
            r.mime_type = clone_opt_string(mime_type_option);
            r.thumbnail_path = clone_opt_string(thumbnail_path_option);
            r.emoji = clone_opt_string(emoji_option);
            r
        },
        ContentValue::Photo(p) => {
            let mut r = blank("photo");
            r.path = clone_opt_string(&p.path_option);
            r.width = Some(p.width);
            r.height = Some(p.height);
            r.mime_type = clone_opt_string(&p.mime_type_option);
            r.is_one_time = Some(serialize_bool(p.is_one_time));
            r
        },
        ContentValue::VoiceMsg { path_option, file_name_option, mime_type, duration_sec_option } => {
            let mut r = blank("voice_message");
            r.path = clone_opt_string(path_option);
            r.file_name = clone_opt_string(file_name_option);
            r.mime_type = Some(mime_type.clone());
            r.duration_sec = *duration_sec_option;
            r
        },
        ContentValue::Audio {
            path_option, file_name_option, title_option, performer_option, mime_type, duration_sec_option,
            thumbnail_path_option,
        } => {
            let mut r = blank("audio");
            r.path = clone_opt_string(path_option);
            r.file_name = clone_opt_string(file_name_option);
            r.title = clone_opt_string(title_option);
            r.performer = clone_opt_string(performer_option);
            r.mime_type = Some(mime_type.clone());
            r.duration_sec = *duration_sec_option;
            r.thumbnail_path = clone_opt_string(thumbnail_path_option);
            r
        },
        ContentValue::VideoMsg {
            path_option, file_name_option, width, height, mime_type, duration_sec_option, thumbnail_path_option,
            is_one_time,
        } => {
            let mut r = blank("video_message");
            r.path = clone_opt_string(path_option);
            r.file_name = clone_opt_string(file_name_option);
            r.width = Some(*width);
            r.height = Some(*height);
            r.mime_type = Some(mime_type.clone());
            r.duration_sec = *duration_sec_option;
            r.thumbnail_path = clone_opt_string(thumbnail_path_option);
            r.is_one_time = Some(serialize_bool(*is_one_time));
            r
        },
        ContentValue::Video {
            path_option, file_name_option, title_option, performer_option, width, height, mime_type,
            duration_sec_option, thumbnail_path_option, is_one_time,
        } => {
            let mut r = blank("video");
            r.path = clone_opt_string(path_option);
            r.file_name = clone_opt_string(file_name_option);
            r.title = clone_opt_string(title_option);
            r.performer = clone_opt_string(performer_option);
            r.width = Some(*width);
            r.height = Some(*height);
            r.mime_type = Some(mime_type.clone());
            r.duration_sec = *duration_sec_option;
            r.thumbnail_path = clone_opt_string(thumbnail_path_option);
            r.is_one_time = Some(serialize_bool(*is_one_time));
            r
        },
        ContentValue::File { path_option, file_name_option, mime_type_option, thumbnail_path_option } => {
            let mut r = blank("file");
            r.path = clone_opt_string(path_option);
            r.file_name = clone_opt_string(file_name_option);
            r.mime_type = clone_opt_string(mime_type_option);
            r.thumbnail_path = clone_opt_string(thumbnail_path_option);
            r
        },
        ContentValue::Location { title_option, address_option, lat_str, lon_str, duration_sec_option } => {
            let mut r = blank("location");
            r.title = clone_opt_string(title_option);
            r.address = clone_opt_string(address_option);
            r.lat = Some(lat_str.clone());
            r.lon = Some(lon_str.clone());
            r.duration_sec = *duration_sec_option;
            r
        },
        ContentValue::Poll { question } => {
            let mut r = blank("poll");
            r.poll_question = Some(question.clone());
            r
        },
        ContentValue::SharedContact { first_name_option, last_name_option, phone_number_option, vcard_path_option } => {
            let mut r = blank("shared_contact");
            r.path = clone_opt_string(vcard_path_option);
            r.first_name = clone_opt_string(first_name_option);
            r.last_name = clone_opt_string(last_name_option);
            r.phone_number = clone_opt_string(phone_number_option);
            r
        },
        ContentValue::TodoList { .. } => blank("todo_list"),
    };
    let mut files: Vec<String> = Vec::new();
    push_opt_clone(&mut files, &r.path);
    push_opt_clone(&mut files, &r.thumbnail_path);
    (r, files)
}

fn deserialize_photo(raw: RawMessageContent) -> (r: Result<ContentPhoto, MappingError>)
    requires
        match raw.is_one_time {
            Some(f) => is_flag(f),
            None => true,
        },
    ensures
        r == photo_of_raw(raw),
{
    match (raw.width, raw.height, raw.is_one_time) {
        (Some(width), Some(height), Some(f)) => Ok(ContentPhoto {
            path_option: raw.path,
            width,
            height,
            mime_type_option: raw.mime_type,
            is_one_time: deserialize_bool(f),
        }),
        _ => Err(MappingError::MissingContentField),
    }
}

/// The content a stored row stands for, see [`content_of_raw`].
pub fn deserialize_content(raw: RawMessageContent) -> (r: Result<Content, MappingError>)
    requires
        raw_content_readable(raw),
    ensures
        match content_of_raw(raw) {
            Ok(v) => r matches Ok(c) && c.sealed_value_optional == Some(v),
            Err(e) => r matches Err(e1) && e1 == e,
        },
{
    let ghost g = raw;
    let t = raw.element_type.as_str();
    let v: Result<ContentValue, MappingError> = if str_eq(t, "sticker") {
        match (raw.width, raw.height) {
            (Some(width), Some(height)) => Ok(ContentValue::Sticker {
                path_option: raw.path,
                file_name_option: raw.file_name,
                width,
                height,
                mime_type_option: raw.mime_type,
                thumbnail_path_option: raw.thumbnail_path,
                emoji_option: raw.emoji,
            }),
            _ => Err(MappingError::MissingContentField),
        }
    } else if str_eq(t, "photo") {
        match deserialize_photo(raw) {
            Ok(p) => Ok(ContentValue::Photo(p)),
            Err(e) => Err(e),
        }
    } else if str_eq(t, "voice_message") {
        match raw.mime_type {
            Some(mime_type) => Ok(ContentValue::VoiceMsg {
                path_option: raw.path,
                file_name_option: raw.file_name,
                mime_type,
                duration_sec_option: raw.duration_sec,
            }),
            None => Err(MappingError::MissingContentField),
        }
    } else if str_eq(t, "audio") {
        match raw.mime_type {
            Some(mime_type) => Ok(ContentValue::Audio {
                path_option: raw.path,
                file_name_option: raw.file_name,
                title_option: raw.title,
                performer_option: raw.performer,
                mime_type,
                duration_sec_option: raw.duration_sec,
                thumbnail_path_option: raw.thumbnail_path,
            }),
            None => Err(MappingError::MissingContentField),
        }
    } else if str_eq(t, "video_message") {
        match (raw.width, raw.height, raw.mime_type, raw.is_one_time) {
            (Some(width), Some(height), Some(mime_type), Some(f)) => Ok(ContentValue::VideoMsg {
                path_option: raw.path,
                file_name_option: raw.file_name,
                width,
                height,
                mime_type,
                duration_sec_option: raw.duration_sec,
                thumbnail_path_option: raw.thumbnail_path,
                is_one_time: deserialize_bool(f),
            }),
            _ => Err(MappingError::MissingContentField),
        }
    } else if str_eq(t, "video") {
        match (raw.width, raw.height, raw.mime_type, raw.is_one_time) {
            (Some(width), Some(height), Some(mime_type), Some(f)) => Ok(ContentValue::Video {
                path_option: raw.path,
                file_name_option: raw.file_name,
                title_option: raw.title,
                performer_option: raw.performer,
                width,
                height,
                mime_type,
                duration_sec_option: raw.duration_sec,
                thumbnail_path_option: raw.thumbnail_path,
                is_one_time: deserialize_bool(f),
            }),
            _ => Err(MappingError::MissingContentField),
        }
    } else if str_eq(t, "file") {
        Ok(ContentValue::File {
            path_option: raw.path,
            file_name_option: raw.file_name,
            mime_type_option: raw.mime_type,
            thumbnail_path_option: raw.thumbnail_path,
        })
    } else if str_eq(t, "location") {
        match (raw.lat, raw.lon) {
            (Some(lat_str), Some(lon_str)) => Ok(ContentValue::Location {
                title_option: raw.title,
                address_option: raw.address,
                lat_str,
                lon_str,
                duration_sec_option: raw.duration_sec,
            }),
            _ => Err(MappingError::MissingContentField),
        }
    } else if str_eq(t, "poll") {
        match raw.poll_question {
            Some(question) => Ok(ContentValue::Poll { question }),
            None => Err(MappingError::MissingContentField),
        }
    } else if str_eq(t, "shared_contact") {
        Ok(ContentValue::SharedContact {
            first_name_option: raw.first_name,
            last_name_option: raw.last_name,
            phone_number_option: raw.phone_number,
            vcard_path_option: raw.path,
        })
    } else {
        Err(MappingError::UnknownContentType)
    };
    match v {
        Ok(v) => Ok(Content { sealed_value_optional: Some(v) }),
        Err(e) => Err(e),
    }
}

/// What is stored of a content is read back as the same content.
pub proof fn law_content_round_trip(v: ContentValue, et: String)
    requires
        !(v is TodoList),
        et@ == content_type_name(v),
    ensures
        raw_content_readable(content_row(v, et)),
        content_of_raw(content_row(v, et)) == Ok::<ContentValue, MappingError>(v),
{
    reveal_strlit("sticker");
    reveal_strlit("photo");
    reveal_strlit("voice_message");
    reveal_strlit("audio");
    reveal_strlit("video_message");
    reveal_strlit("video");
    reveal_strlit("file");
    reveal_strlit("location");
    reveal_strlit("poll");
    reveal_strlit("shared_contact");
    let t = et@;
    // The stored name is the content's; names of equal length differ early on.
    match v {
        ContentValue::Sticker { .. } => assert(t =~= "sticker"@),
        ContentValue::Photo(_) => assert(t =~= "photo"@),
        ContentValue::VoiceMsg { .. } => assert(t =~= "voice_message"@),
        ContentValue::Audio { .. } => {
            assert(t =~= "audio"@);
            assert(t[0] != "photo"@[0]);
        },
        ContentValue::VideoMsg { .. } => {
            assert(t =~= "video_message"@);
            assert(t[1] != "voice_message"@[1]);
        },
        ContentValue::Video { .. } => {
            assert(t =~= "video"@);
            assert(t[0] != "photo"@[0] && t[0] != "audio"@[0]);
        },
        ContentValue::File { .. } => assert(t =~= "file"@),
        ContentValue::Location { .. } => assert(t =~= "location"@),
        ContentValue::Poll { .. } => {
            assert(t =~= "poll"@);
            assert(t[0] != "file"@[0]);
        },
        ContentValue::SharedContact { .. } => assert(t =~= "shared_contact"@),
        ContentValue::TodoList { .. } => {},
    }
}

//
// Service values
//

/// Subtype a service value is stored under.
pub open spec fn service_subtype(v: MessageServiceValue) -> Seq<char> {
    match v {
        MessageServiceValue::PhoneCall { .. } => "phone_call"@,
        MessageServiceValue::SuggestProfilePhoto { .. } => "suggest_profile_photo"@,
        MessageServiceValue::PinMessage { .. } => "pin_message"@,
        MessageServiceValue::ClearHistory => "clear_history"@,
        MessageServiceValue::BlockUser { .. } => "block_user"@,
        MessageServiceValue::StatusTextChanged => "status_text_changed"@,
        MessageServiceValue::Notice => "notice"@,
        MessageServiceValue::GroupCreate { .. } => "group_create"@,
        MessageServiceValue::GroupEditTitle { .. } => "group_edit_title"@,
        MessageServiceValue::GroupEditPhoto { .. } => "group_edit_photo"@,
        MessageServiceValue::GroupDeletePhoto => "group_delete_photo"@,
        MessageServiceValue::GroupInviteMembers { .. } => "group_invite_members"@,
        MessageServiceValue::GroupRemoveMembers { .. } => "group_remove_members"@,
        MessageServiceValue::GroupMigrateFrom { .. } => "group_migrate_from"@,
        MessageServiceValue::GroupMigrateTo => "group_migrate_to"@,
    }
}

/// Whether a service value has a content row: values with no fields have none.
pub open spec fn service_has_row(v: MessageServiceValue) -> bool {
    !(v is ClearHistory || v is StatusTextChanged || v is Notice || v is GroupDeletePhoto || v is GroupMigrateTo)
}

/// The members a service value lists, if it lists any.
pub open spec fn service_members(v: MessageServiceValue) -> Option<Seq<Seq<char>>> {
    match v {
        MessageServiceValue::PhoneCall { members, .. } => Some(views(members@)),
        MessageServiceValue::GroupCreate { members, .. } => Some(views(members@)),
        MessageServiceValue::GroupInviteMembers { members } => Some(views(members@)),
        MessageServiceValue::GroupRemoveMembers { members } => Some(views(members@)),
        _ => None,
    }
}

/// How a service value is stored in its content row, under the given type name and with the
/// given stored member list.
pub open spec fn service_row(v: MessageServiceValue, et: String, members: Option<String>) -> RawMessageContent {
    match v {
        MessageServiceValue::PhoneCall { duration_sec_option, discard_reason_option, .. } => RawMessageContent {
            duration_sec: duration_sec_option,
            discard_reason: discard_reason_option,
            members,
            ..blank_row(et)
        },
        MessageServiceValue::SuggestProfilePhoto { photo } => photo_row(photo, et),
        MessageServiceValue::PinMessage { message_id } => RawMessageContent {
            pinned_message_id: Some(message_id),
            ..blank_row(et)
        },
        MessageServiceValue::BlockUser { is_blocked } => RawMessageContent {
            is_blocked: Some(stored_flag(is_blocked)),
            ..blank_row(et)
        },
        MessageServiceValue::GroupCreate { title, .. } => RawMessageContent {
            title: Some(title),
            members,
            ..blank_row(et)
        },
        MessageServiceValue::GroupEditTitle { title } => RawMessageContent { title: Some(title), ..blank_row(et) },
        MessageServiceValue::GroupEditPhoto { photo } => photo_row(photo, et),
        MessageServiceValue::GroupInviteMembers { .. } => RawMessageContent { members, ..blank_row(et) },
        MessageServiceValue::GroupRemoveMembers { .. } => RawMessageContent { members, ..blank_row(et) },
        MessageServiceValue::GroupMigrateFrom { title } => RawMessageContent { title: Some(title), ..blank_row(et) },
        _ => blank_row(et),
    }
}

/// Whether `row` is how a service value is stored: no row for a value with no fields;
/// otherwise a row named by the subtype, with each field in its column and the members as a
/// stored list.
pub open spec fn raw_of_service(v: MessageServiceValue, row: Option<RawMessageContent>) -> bool {
    if service_has_row(v) {
        row matches Some(r) && {
            &&& r.element_type@ == service_subtype(v)
            &&& r == service_row(v, r.element_type, r.members)
            &&& opt_view(r.members) == match service_members(v) {
                Some(ms) => stored_list(ms),
                None => None,
            }
        }
    } else {
        row is None
    }
}

pub open spec fn opt_view(o: Option<String>) -> Option<Seq<char>> {
    match o {
        Some(s) => Some(s@),
        None => None,
    }
}

/// Files a stored service value refers to: the photo of a profile photo suggestion or of a
/// group photo change.
pub open spec fn service_files(v: MessageServiceValue) -> Seq<Seq<char>> {
    match v {
        MessageServiceValue::SuggestProfilePhoto { photo } => opt_seq_chars(photo.path_option),
        MessageServiceValue::GroupEditPhoto { photo } => opt_seq_chars(photo.path_option),
        _ => Seq::empty(),
    }
}

fn photo_raw(p: &ContentPhoto, et: &str) -> (r: RawMessageContent)
    ensures
        r == photo_row(*p, r.element_type),
        r.element_type@ == et@,
{
    let mut r = blank(et);
    r.path = clone_opt_string(&p.path_option);
    r.width = Some(p.width);
    r.height = Some(p.height);
    r.mime_type = clone_opt_string(&p.mime_type_option);
    r.is_one_time = Some(serialize_bool(p.is_one_time));
    r
}

/// How a service value is stored: its subtype, its content row (see [`raw_of_service`]) and
/// the relative paths of the files to copy along with it.
pub fn serialize_service(v: &MessageServiceValue) -> (r: (&'static str, Option<RawMessageContent>, Vec<String>))
    ensures
        r.0@ == service_subtype(*v),
        raw_of_service(*v, r.1),
        views(r.2@) == service_files(*v),
{
    let mut files: Vec<String> = Vec::new();
    let r: (&'static str, Option<RawMessageContent>) = match v {
        MessageServiceValue::PhoneCall { duration_sec_option, discard_reason_option, members } => {
            let mut r = blank("phone_call");
            r.duration_sec = *duration_sec_option;
            r.discard_reason = clone_opt_string(discard_reason_option);
            r.members = serialize_arr(members.as_slice());
            ("phone_call", Some(r))
        },
        MessageServiceValue::SuggestProfilePhoto { photo } => {
            push_opt_clone(&mut files, &photo.path_option);
            ("suggest_profile_photo", Some(photo_raw(photo, "suggest_profile_photo")))
        },
        MessageServiceValue::PinMessage { message_id } => {
            let mut r = blank("pin_message");
            r.pinned_message_id = Some(*message_id);
            ("pin_message", Some(r))
        },
        MessageServiceValue::ClearHistory => ("clear_history", None),
        MessageServiceValue::BlockUser { is_blocked } => {
            let mut r = blank("block_user");
            r.is_blocked = Some(serialize_bool(*is_blocked));
            ("block_user", Some(r))
        },
        MessageServiceValue::StatusTextChanged => ("status_text_changed", None),
        MessageServiceValue::Notice => ("notice", None),
        MessageServiceValue::GroupCreate { title, members } => {
            let mut r = blank("group_create");
            r.title = Some(title.clone());
            r.members = serialize_arr(members.as_slice());
            ("group_create", Some(r))
        },
        MessageServiceValue::GroupEditTitle { title } => {
            let mut r = blank("group_edit_title");
            r.title = Some(title.clone());
            ("group_edit_title", Some(r))
        },
        MessageServiceValue::GroupEditPhoto { photo } => {
            push_opt_clone(&mut files, &photo.path_option);
            ("group_edit_photo", Some(photo_raw(photo, "group_edit_photo")))
        },
        MessageServiceValue::GroupDeletePhoto => ("group_delete_photo", None),
        MessageServiceValue::GroupInviteMembers { members } => {
            let mut r = blank("group_invite_members");
            r.members = serialize_arr(members.as_slice());
            ("group_invite_members", Some(r))
        },
        MessageServiceValue::GroupRemoveMembers { members } => {
            let mut r = blank("group_remove_members");
            r.members = serialize_arr(members.as_slice());
            ("group_remove_members", Some(r))
        },
        MessageServiceValue::GroupMigrateFrom { title } => {
            let mut r = blank("group_migrate_from");
            r.title = Some(title.clone());
            ("group_migrate_from", Some(r))
        },
        MessageServiceValue::GroupMigrateTo => ("group_migrate_to", None),
    };
    proof {
        assert(views(files@) =~= service_files(*v));
    }
    (r.0, r.1, files)
}

/// Subtypes stored without a content row.
pub open spec fn rowless_subtype(t: Seq<char>) -> bool {
    t == "clear_history"@ || t == "status_text_changed"@ || t == "notice"@ || t == "group_delete_photo"@
        || t == "group_migrate_to"@
}

/// Subtypes stored with a content row.
pub open spec fn row_subtype(t: Seq<char>) -> bool {
    t == "phone_call"@ || t == "suggest_profile_photo"@ || t == "pin_message"@ || t == "block_user"@
        || t == "group_create"@ || t == "group_edit_title"@ || t == "group_edit_photo"@
        || t == "group_invite_members"@ || t == "group_remove_members"@ || t == "group_migrate_from"@
}

/// Whether `w` is what a content row of a service message of the given subtype is read back
/// as: each field from its column, members from their stored list; a title, the pinned
/// message's ID, the block flag and, for invitations and removals, the members are needed.
pub open spec fn service_of_row(t: Seq<char>, x: RawMessageContent, w: Result<MessageServiceValue, MappingError>) -> bool {
    let needed = Err::<MessageServiceValue, MappingError>(MappingError::MissingServiceField);
    if t == "phone_call"@ {
        w matches Ok(MessageServiceValue::PhoneCall { duration_sec_option, discard_reason_option, members }) && {
            &&& duration_sec_option == x.duration_sec
            &&& discard_reason_option == x.discard_reason
            &&& views(members@) == read_list(opt_view(x.members))
        }
    } else if t == "suggest_profile_photo"@ || t == "group_edit_photo"@ {
        match photo_of_raw(x) {
            Ok(photo) => w == Ok::<MessageServiceValue, MappingError>(
                if t == "suggest_profile_photo"@ {
                    MessageServiceValue::SuggestProfilePhoto { photo }
                } else {
                    MessageServiceValue::GroupEditPhoto { photo }
                },
            ),
            Err(e) => w == Err::<MessageServiceValue, MappingError>(e),
        }
    } else if t == "pin_message"@ {
        match x.pinned_message_id {
            Some(message_id) => w == Ok::<MessageServiceValue, MappingError>(MessageServiceValue::PinMessage { message_id }),
            None => w == needed,
        }
    } else if t == "block_user"@ {
        match x.is_blocked {
            Some(b) => w == Ok::<MessageServiceValue, MappingError>(MessageServiceValue::BlockUser { is_blocked: b == 1 }),
            None => w == needed,
        }
    } else if t == "group_create"@ {
        match x.title {
            Some(title) => w matches Ok(MessageServiceValue::GroupCreate { title: t1, members }) && t1 == title
                && views(members@) == read_list(opt_view(x.members)),
            None => w == needed,
        }
    } else if t == "group_edit_title"@ || t == "group_migrate_from"@ {
        match x.title {
            Some(title) => w == Ok::<MessageServiceValue, MappingError>(
                if t == "group_edit_title"@ {
                    MessageServiceValue::GroupEditTitle { title }
                } else {
                    MessageServiceValue::GroupMigrateFrom { title }
                },
            ),
            None => w == needed,
        }
    } else {
        match x.members {
            Some(m) => if t == "group_invite_members"@ {
                w matches Ok(MessageServiceValue::GroupInviteMembers { members }) && views(members@) == read_list(Some(m@))
            } else {
                w matches Ok(MessageServiceValue::GroupRemoveMembers { members }) && views(members@) == read_list(Some(m@))
            },
            None => w == needed,
        }
    }
}

/// Whether `w` is what a service message of the given subtype with the given content row is
/// read back as: values with no fields need no row; the others need one, read as
/// [`service_of_row`] says; other subtypes are unknown.
pub open spec fn service_read(t: Seq<char>, raw: Option<RawMessageContent>, w: Result<MessageServiceValue, MappingError>) -> bool {
    if rowless_subtype(t) {
        w == Ok::<MessageServiceValue, MappingError>(
            if t == "clear_history"@ {
                MessageServiceValue::ClearHistory
            } else if t == "status_text_changed"@ {
                MessageServiceValue::StatusTextChanged
            } else if t == "notice"@ {
                MessageServiceValue::Notice
            } else if t == "group_delete_photo"@ {
                MessageServiceValue::GroupDeletePhoto
            } else {
                MessageServiceValue::GroupMigrateTo
            },
        )
    } else if row_subtype(t) {
        match raw {
            None => w == Err::<MessageServiceValue, MappingError>(MappingError::MissingServiceContent),
            Some(x) => service_of_row(t, x, w),
        }
    } else {
        w == Err::<MessageServiceValue, MappingError>(MappingError::UnknownServiceSubtype)
    }
}

/// Whether a content row of a service message can be read back: flags are flags.
pub open spec fn raw_service_readable(raw: Option<RawMessageContent>) -> bool {
    match raw {
        Some(x) => (match x.is_one_time {
            Some(f) => is_flag(f),
            None => true,
        }) && (match x.is_blocked {
            Some(f) => is_flag(f),
            None => true,
        }),
        None => true,
    }
}

/// The service value a stored subtype and content row stand for, see [`service_read`].
pub fn deserialize_service(subtype: &str, raw: Option<RawMessageContent>) -> (r: Result<MessageServiceValue, MappingError>)
    requires
        raw_service_readable(raw),
    ensures
        service_read(subtype@, raw, r),
{
    let t = subtype;
    if str_eq(t, "clear_history") {
        return Ok(MessageServiceValue::ClearHistory);
    } else if str_eq(t, "status_text_changed") {
        return Ok(MessageServiceValue::StatusTextChanged);
    } else if str_eq(t, "notice") {
        return Ok(MessageServiceValue::Notice);
    } else if str_eq(t, "group_delete_photo") {
        return Ok(MessageServiceValue::GroupDeletePhoto);
    } else if str_eq(t, "group_migrate_to") {
        return Ok(MessageServiceValue::GroupMigrateTo);
    }
    let known = str_eq(t, "phone_call") || str_eq(t, "suggest_profile_photo") || str_eq(t, "pin_message")
        || str_eq(t, "block_user") || str_eq(t, "group_create") || str_eq(t, "group_edit_title")
        || str_eq(t, "group_edit_photo") || str_eq(t, "group_invite_members") || str_eq(t, "group_remove_members")
        || str_eq(t, "group_migrate_from");
    if !known {
        return Err(MappingError::UnknownServiceSubtype);
    }
    let x = match raw {
        None => {
            return Err(MappingError::MissingServiceContent);
        },
        Some(x) => x,
    };
    if str_eq(t, "phone_call") {
        Ok(MessageServiceValue::PhoneCall {
            duration_sec_option: x.duration_sec,
            discard_reason_option: x.discard_reason,
            members: deserialize_arr(x.members),
        })
    } else if str_eq(t, "suggest_profile_photo") || str_eq(t, "group_edit_photo") {
        let suggest = str_eq(t, "suggest_profile_photo");
        match deserialize_photo(x) {
            Ok(photo) => if suggest {
                Ok(MessageServiceValue::SuggestProfilePhoto { photo })
            } else {
                Ok(MessageServiceValue::GroupEditPhoto { photo })
            },
            Err(e) => Err(e),
        }
    } else if str_eq(t, "pin_message") {
        match x.pinned_message_id {
            Some(message_id) => Ok(MessageServiceValue::PinMessage { message_id }),
            None => Err(MappingError::MissingServiceField),
        }
    } else if str_eq(t, "block_user") {
        match x.is_blocked {
            Some(b) => Ok(MessageServiceValue::BlockUser { is_blocked: deserialize_bool(b) }),
            None => Err(MappingError::MissingServiceField),
        }
    } else if str_eq(t, "group_create") {
        match x.title {
            Some(title) => Ok(MessageServiceValue::GroupCreate { title, members: deserialize_arr(x.members) }),
            None => Err(MappingError::MissingServiceField),
        }
    } else if str_eq(t, "group_edit_title") || str_eq(t, "group_migrate_from") {
        let edit = str_eq(t, "group_edit_title");
        match x.title {
            Some(title) => if edit {
                Ok(MessageServiceValue::GroupEditTitle { title })
            } else {
                Ok(MessageServiceValue::GroupMigrateFrom { title })
            },
            None => Err(MappingError::MissingServiceField),
        }
    } else {
        let invite = str_eq(t, "group_invite_members");
        match x.members {
            Some(m) => if invite {
                Ok(MessageServiceValue::GroupInviteMembers { members: deserialize_arr(Some(m)) })
            } else {
                Ok(MessageServiceValue::GroupRemoveMembers { members: deserialize_arr(Some(m)) })
            },
            None => Err(MappingError::MissingServiceField),
        }
    }
}


/// Whether two service values are the same, member lists compared by their text.
pub open spec fn same_service(a: MessageServiceValue, b: MessageServiceValue) -> bool {
    match (a, b) {
        (
            MessageServiceValue::PhoneCall { duration_sec_option: d1, discard_reason_option: r1, members: m1 },
            MessageServiceValue::PhoneCall { duration_sec_option: d2, discard_reason_option: r2, members: m2 },
        ) => d1 == d2 && r1 == r2 && views(m1@) == views(m2@),
        (
            MessageServiceValue::GroupCreate { title: t1, members: m1 },
            MessageServiceValue::GroupCreate { title: t2, members: m2 },
        ) => t1 == t2 && views(m1@) == views(m2@),
        (MessageServiceValue::GroupInviteMembers { members: m1 }, MessageServiceValue::GroupInviteMembers { members: m2 }) =>
            views(m1@) == views(m2@),
        (MessageServiceValue::GroupRemoveMembers { members: m1 }, MessageServiceValue::GroupRemoveMembers { members: m2 }) =>
            views(m1@) == views(m2@),
        _ => a == b,
    }
}

/// What is stored of a service value is read back as the same value, provided its members
/// hold no semicolon, are not a single empty name, and, for an invitation or a removal, are
/// not an empty list (which is stored as nothing and then found missing).
pub proof fn law_service_round_trip(v: MessageServiceValue, row: Option<RawMessageContent>, w: Result<MessageServiceValue, MappingError>)
    requires
        raw_of_service(v, row),
        service_read(service_subtype(v), row, w),
        match service_members(v) {
            Some(ms) => semicolon_free(ms) && !(ms.len() == 1 && ms[0].len() == 0),
            None => true,
        },
        (v is GroupInviteMembers || v is GroupRemoveMembers) ==> service_members(v).unwrap().len() > 0,
    ensures
        raw_service_readable(row),
        w matches Ok(u) && same_service(u, v),
{
    reveal_strlit("phone_call");
    reveal_strlit("suggest_profile_photo");
    reveal_strlit("pin_message");
    reveal_strlit("clear_history");
    reveal_strlit("block_user");
    reveal_strlit("status_text_changed");
    reveal_strlit("notice");
    reveal_strlit("group_create");
    reveal_strlit("group_edit_title");
    reveal_strlit("group_edit_photo");
    reveal_strlit("group_delete_photo");
    reveal_strlit("group_invite_members");
    reveal_strlit("group_remove_members");
    reveal_strlit("group_migrate_from");
    reveal_strlit("group_migrate_to");
    let t = service_subtype(v);
    match v {
        MessageServiceValue::PhoneCall { .. } => {
            assert(t =~= "phone_call"@);
            assert(t[0] != "block_user"@[0]);
            law_list_round_trip(service_members(v).unwrap());
        },
        MessageServiceValue::SuggestProfilePhoto { .. } => {
            assert(t =~= "suggest_profile_photo"@);
        },
        MessageServiceValue::PinMessage { .. } => {
            assert(t =~= "pin_message"@);
        },
        MessageServiceValue::ClearHistory => {
            assert(t =~= "clear_history"@);
        },
        MessageServiceValue::BlockUser { .. } => {
            assert(t =~= "block_user"@);
            assert(t[0] != "phone_call"@[0]);
        },
        MessageServiceValue::StatusTextChanged => {
            assert(t =~= "status_text_changed"@);
        },
        MessageServiceValue::Notice => {
            assert(t =~= "notice"@);
        },
        MessageServiceValue::GroupCreate { .. } => {
            assert(t =~= "group_create"@);
            law_list_round_trip(service_members(v).unwrap());
        },
        MessageServiceValue::GroupEditTitle { .. } => {
            assert(t =~= "group_edit_title"@);
            assert(t[11] != "group_edit_photo"@[11]);
            assert(t[6] != "group_migrate_to"@[6]);
        },
        MessageServiceValue::GroupEditPhoto { .. } => {
            assert(t =~= "group_edit_photo"@);
            assert(t[11] != "group_edit_title"@[11]);
            assert(t[6] != "group_migrate_to"@[6]);
        },
        MessageServiceValue::GroupDeletePhoto => {
            assert(t =~= "group_delete_photo"@);
            assert(t[6] != "group_migrate_from"@[6]);
        },
        MessageServiceValue::GroupInviteMembers { .. } => {
            assert(t =~= "group_invite_members"@);
            assert(t[6] != "group_remove_members"@[6]);
            law_list_round_trip(service_members(v).unwrap());
        },
        MessageServiceValue::GroupRemoveMembers { .. } => {
            assert(t =~= "group_remove_members"@);
            assert(t[6] != "group_invite_members"@[6]);
            law_list_round_trip(service_members(v).unwrap());
        },
        MessageServiceValue::GroupMigrateFrom { .. } => {
            assert(t =~= "group_migrate_from"@);
            assert(t[6] != "group_delete_photo"@[6]);
        },
        MessageServiceValue::GroupMigrateTo => {
            assert(t =~= "group_migrate_to"@);
            assert(t[6] != "group_edit_title"@[6]);
            assert(t[6] != "group_edit_photo"@[6]);
        },
    }
}

//
// Lists of elements and contents
//

/// The error of the first stored rich text element that cannot be read, if any.
pub open spec fn rtes_error(raws: Seq<RawRichTextElement>) -> Option<MappingError>
    decreases raws.len(),
{
    if raws.len() == 0 {
        None
    } else {
        match rtes_error(raws.drop_last()) {
            Some(e) => Some(e),
            None => match rte_of_raw(raws.last()) {
                Err(e) => Some(e),
                Ok(_) => None,
            },
        }
    }
}

/// The error of the first stored content that cannot be read, if any.
pub open spec fn contents_error(raws: Seq<RawMessageContent>) -> Option<MappingError>
    decreases raws.len(),
{
    if raws.len() == 0 {
        None
    } else {
        match contents_error(raws.drop_last()) {
            Some(e) => Some(e),
            None => match content_of_raw(raws.last()) {
                Err(e) => Some(e),
                Ok(_) => None,
            },
        }
    }
}

/// Files the stored contents refer to, in order.
pub open spec fn contents_stored_files(cs: Seq<Content>) -> Seq<Seq<char>>
    decreases cs.len(),
{
    if cs.len() == 0 {
        Seq::empty()
    } else {
        contents_stored_files(cs.drop_last()) + stored_files(cs.last().sealed_value_optional.unwrap())
    }
}

/// Whether each stored row is how the element at its position is stored.
pub open spec fn rtes_stored(text: Seq<RichTextElement>, raws: Seq<RawRichTextElement>) -> bool {
    &&& raws.len() == text.len()
    &&& forall|i: int| 0 <= i < text.len() ==> raw_of_rte((#[trigger] text[i]).val.unwrap(), raws[i])
}

/// Whether each stored row is how the content at its position is stored.
pub open spec fn contents_stored(cs: Seq<Content>, raws: Seq<RawMessageContent>) -> bool {
    &&& raws.len() == cs.len()
    &&& forall|i: int| 0 <= i < cs.len() ==> {
        &&& (#[trigger] raws[i]).element_type@ == content_type_name(cs[i].sealed_value_optional.unwrap())
        &&& raws[i] == content_row(cs[i].sealed_value_optional.unwrap(), raws[i].element_type)
    }
}

/// Whether each element is what the stored row at its position is read back as.
pub open spec fn rtes_read(raws: Seq<RawRichTextElement>, text: Seq<RichTextElement>) -> bool {
    &&& text.len() == raws.len()
    &&& forall|i: int| 0 <= i < raws.len() ==> (rte_of_raw(raws[i]) matches Ok(v) && (#[trigger] text[i]).val == Some(v)
        && text[i].searchable_string@ == val_searchable(v))
}

/// Whether each content is what the stored row at its position is read back as.
pub open spec fn contents_read(raws: Seq<RawMessageContent>, cs: Seq<Content>) -> bool {
    &&& cs.len() == raws.len()
    &&& forall|i: int| 0 <= i < raws.len() ==> (content_of_raw(raws[i]) matches Ok(v)
        && (#[trigger] cs[i]).sealed_value_optional == Some(v))
}

fn serialize_rtes(text: &Vec<RichTextElement>) -> (r: Vec<RawRichTextElement>)
    requires
        forall|i: int| 0 <= i < text@.len() ==> (#[trigger] text@[i]).val is Some,
    ensures
        rtes_stored(text@, r@),
{
    let mut r: Vec<RawRichTextElement> = Vec::new();
    let mut i: usize = 0;
    while i < text.len()
        invariant
            i <= text@.len(),
            forall|k: int| 0 <= k < text@.len() ==> (#[trigger] text@[k]).val is Some,
            r@.len() == i,
            forall|k: int| 0 <= k < i ==> raw_of_rte((#[trigger] text@[k]).val.unwrap(), r@[k]),
        decreases text@.len() - i,
    {
        r.push(serialize_rte(&text[i]));
        i = i + 1;
    }
    r
}

fn serialize_contents(cs: &Vec<Content>) -> (r: (Vec<RawMessageContent>, Vec<String>))
    requires
        forall|i: int| 0 <= i < cs@.len() ==> content_storable(#[trigger] cs@[i]),
    ensures
        contents_stored(cs@, r.0@),
        views(r.1@) == contents_stored_files(cs@),
{
    let mut rows: Vec<RawMessageContent> = Vec::new();
    let mut files: Vec<String> = Vec::new();
    let mut i: usize = 0;
    assert(cs@.take(0) =~= Seq::<Content>::empty());
    while i < cs.len()
        invariant
            i <= cs@.len(),
            forall|k: int| 0 <= k < cs@.len() ==> content_storable(#[trigger] cs@[k]),
            rows@.len() == i,
            forall|k: int| 0 <= k < i ==> {
                &&& (#[trigger] rows@[k]).element_type@ == content_type_name(cs@[k].sealed_value_optional.unwrap())
                &&& rows@[k] == content_row(cs@[k].sealed_value_optional.unwrap(), rows@[k].element_type)
            },
            views(files@) == contents_stored_files(cs@.take(i as int)),
        decreases cs@.len() - i,
    {
        let (row, fs) = serialize_content(&cs[i]);
        rows.push(row);
        let ghost before = views(files@);
        let mut j: usize = 0;
        while j < fs.len()
            invariant
                j <= fs@.len(),
                views(files@) == before + views(fs@).take(j as int),
            decreases fs@.len() - j,
        {
            let ghost prev = files@;
            files.push(fs[j].clone());
            assert(views(files@) =~= views(prev).push(fs@[j as int]@));
            assert(views(fs@).take(j + 1) =~= views(fs@).take(j as int).push(fs@[j as int]@));
            assert(views(files@) =~= before + views(fs@).take(j + 1));
            j = j + 1;
        }
        proof {
            assert(views(fs@).take(fs@.len() as int) =~= views(fs@));
            assert(cs@.take(i + 1).drop_last() =~= cs@.take(i as int));
        }
        i = i + 1;
    }
    assert(cs@.take(cs@.len() as int) =~= cs@);
    (rows, files)
}

proof fn lemma_rtes_error_prefix(raws: Seq<RawRichTextElement>, j: int)
    requires
        0 <= j <= raws.len(),
        rtes_error(raws.take(j)) is Some,
    ensures
        rtes_error(raws) == rtes_error(raws.take(j)),
    decreases raws.len() - j,
{
    if j < raws.len() {
        assert(raws.take(j + 1).drop_last() =~= raws.take(j));
        lemma_rtes_error_prefix(raws, j + 1);
    } else {
        assert(raws.take(j) =~= raws);
    }
}

proof fn lemma_contents_error_prefix(raws: Seq<RawMessageContent>, j: int)
    requires
        0 <= j <= raws.len(),
        contents_error(raws.take(j)) is Some,
    ensures
        contents_error(raws) == contents_error(raws.take(j)),
    decreases raws.len() - j,
{
    if j < raws.len() {
        assert(raws.take(j + 1).drop_last() =~= raws.take(j));
        lemma_contents_error_prefix(raws, j + 1);
    } else {
        assert(raws.take(j) =~= raws);
    }
}

fn deserialize_rtes(raws: Vec<RawRichTextElement>) -> (r: Result<Vec<RichTextElement>, MappingError>)
    requires
        forall|i: int| 0 <= i < raws@.len() ==> raw_rte_readable(#[trigger] raws@[i]),
    ensures
        match rtes_error(raws@) {
            Some(e) => r == Err::<Vec<RichTextElement>, MappingError>(e),
            None => r matches Ok(text) && rtes_read(raws@, text@),
        },
{
    let ghost orig = raws@;
    let n = raws.len();
    let mut out: Vec<RichTextElement> = Vec::new();
    let mut i: usize = 0;
    assert(orig.take(0) =~= Seq::<RawRichTextElement>::empty());
    for x in it: raws.into_iter()
        invariant
            i == it.index(),
            it.seq() == orig,
            n == orig.len(),
            forall|k: int| 0 <= k < orig.len() ==> raw_rte_readable(#[trigger] orig[k]),
            rtes_error(orig.take(i as int)) is None,
            out@.len() == i,
            forall|k: int| 0 <= k < i ==> (rte_of_raw(orig[k]) matches Ok(v) && (#[trigger] out@[k]).val == Some(v)
                && out@[k].searchable_string@ == val_searchable(v)),
    {
        proof {
            assert(x == orig[i as int]);
            assert(orig.take(i + 1).drop_last() =~= orig.take(i as int));
        }
        match deserialize_rte(x) {
            Err(e) => {
                proof {
                    lemma_rtes_error_prefix(orig, i + 1);
                }
                return Err(e);
            },
            Ok(e) => {
                out.push(e);
            },
        }
        i = i + 1;
    }
    assert(orig.take(n as int) =~= orig);
    Ok(out)
}

fn deserialize_contents(raws: Vec<RawMessageContent>) -> (r: Result<Vec<Content>, MappingError>)
    requires
        forall|i: int| 0 <= i < raws@.len() ==> raw_content_readable(#[trigger] raws@[i]),
    ensures
        match contents_error(raws@) {
            Some(e) => r == Err::<Vec<Content>, MappingError>(e),
            None => r matches Ok(cs) && contents_read(raws@, cs@),
        },
{
    let ghost orig = raws@;
    let n = raws.len();
    let mut out: Vec<Content> = Vec::new();
    let mut i: usize = 0;
    assert(orig.take(0) =~= Seq::<RawMessageContent>::empty());
    for x in it: raws.into_iter()
        invariant
            i == it.index(),
            it.seq() == orig,
            n == orig.len(),
            forall|k: int| 0 <= k < orig.len() ==> raw_content_readable(#[trigger] orig[k]),
            contents_error(orig.take(i as int)) is None,
            out@.len() == i,
            forall|k: int| 0 <= k < i ==> (content_of_raw(orig[k]) matches Ok(v)
                && (#[trigger] out@[k]).sealed_value_optional == Some(v)),
    {
        proof {
            assert(x == orig[i as int]);
            assert(orig.take(i + 1).drop_last() =~= orig.take(i as int));
        }
        match deserialize_content(x) {
            Err(e) => {
                proof {
                    lemma_contents_error_prefix(orig, i + 1);
                }
                return Err(e);
            },
            Ok(c) => {
                out.push(c);
            },
        }
        i = i + 1;
    }
    assert(orig.take(n as int) =~= orig);
    Ok(out)
}

//
// Messages
//

/// A stored message row.
#[derive(Debug)]
pub struct RawMessage {
    pub internal_id: Option<i64>,
    pub ds_uuid: Vec<u8>,
    pub chat_id: i64,
    pub source_id: Option<i64>,
    pub tpe: String,
    pub subtype: Option<String>,
    pub time_sent: i64,
    pub time_edited: Option<i64>,
    pub is_deleted: i32,
    pub from_id: i64,
    pub forward_from_name: Option<String>,
    pub reply_to_message_id: Option<i64>,
    pub searchable_string: String,
}

/// A stored message with its content rows and rich text rows.
#[derive(Debug)]
pub struct FullRawMessage {
    pub m: RawMessage,
    pub mc: Vec<RawMessageContent>,
    pub rtes: Vec<RawRichTextElement>,
}

/// The first content row, if any.
pub open spec fn first_row(mc: Seq<RawMessageContent>) -> Option<RawMessageContent> {
    if mc.len() == 0 {
        None
    } else {
        Some(mc[0])
    }
}

/// Whether a message can be stored: it has its kind-specific part, its elements their values,
/// and its contents can be stored.
pub open spec fn message_storable(m: Message) -> bool {
    &&& m.typed is Some
    &&& forall|i: int| 0 <= i < m.text@.len() ==> (#[trigger] m.text@[i]).val is Some
    &&& m.typed.unwrap() matches MessageTyped::Regular(mr) ==> forall|i: int| 0 <= i < mr.contents@.len()
        ==> content_storable(#[trigger] mr.contents@[i])
    &&& m.typed.unwrap() matches MessageTyped::Service(ms) ==> ms.sealed_value_optional is Some
}

/// Whether `full` is how a message of the given chat and dataset is stored: its internal ID
/// left for the database, its fields in their columns, its elements and contents (or service
/// value) in their rows.
pub open spec fn raw_of_message(m: Message, chat_id: i64, ds: Seq<u8>, full: FullRawMessage) -> bool {
    let r = full.m;
    &&& r.internal_id is None
    &&& r.ds_uuid@ == ds
    &&& r.chat_id == chat_id
    &&& r.source_id == m.source_id_option
    &&& r.time_sent == m.timestamp
    &&& r.from_id == m.from_id
    &&& r.searchable_string == m.searchable_string
    &&& rtes_stored(m.text@, full.rtes@)
    &&& match m.typed.unwrap() {
        MessageTyped::Regular(mr) => {
            &&& r.tpe@ == "regular"@ && r.subtype is None
            &&& r.time_edited == mr.edit_timestamp_option
            &&& r.is_deleted == stored_flag(mr.is_deleted)
            &&& r.forward_from_name == mr.forward_from_name_option
            &&& r.reply_to_message_id == mr.reply_to_message_id_option
            &&& contents_stored(mr.contents@, full.mc@)
        },
        MessageTyped::Service(ms) => {
            let v = ms.sealed_value_optional.unwrap();
            &&& r.tpe@ == "service"@
            &&& r.subtype matches Some(st) && st@ == service_subtype(v)
            &&& full.mc@.len() <= 1 && raw_of_service(v, first_row(full.mc@))
            &&& r.time_edited is None && r.is_deleted == 0
            &&& r.forward_from_name is None && r.reply_to_message_id is None
        },
    }
}

/// Files a stored message refers to, in order.
pub open spec fn message_stored_files(m: Message) -> Seq<Seq<char>> {
    match m.typed.unwrap() {
        MessageTyped::Regular(mr) => contents_stored_files(mr.contents@),
        MessageTyped::Service(ms) => service_files(ms.sealed_value_optional.unwrap()),
    }
}

/// How a message of the given chat and dataset is stored, see [`raw_of_message`], with the
/// relative paths of the files to copy along with it. Its internal ID is left for the
/// database.
pub fn serialize_message(m: &Message, chat_id: i64, raw_uuid: &[u8]) -> (r: (FullRawMessage, Vec<String>))
    requires
        message_storable(*m),
    ensures
        raw_of_message(*m, chat_id, raw_uuid@, r.0),
        views(r.1@) == message_stored_files(*m),
{
    let rtes = serialize_rtes(&m.text);
    let (tpe, subtype, mc, files, time_edited, is_deleted, forward_from_name, reply_to_message_id):
        (&str, Option<String>, Vec<RawMessageContent>, Vec<String>, Option<i64>, i32, Option<String>, Option<i64>) =
        match m.typed.as_ref().unwrap() {
            MessageTyped::Regular(mr) => {
                let (mc, files) = serialize_contents(&mr.contents);
                ("regular", None, mc, files, mr.edit_timestamp_option, serialize_bool(mr.is_deleted),
                    clone_opt_string(&mr.forward_from_name_option), mr.reply_to_message_id_option)
            },
            MessageTyped::Service(ms) => {
                let (st, row, files) = serialize_service(ms.sealed_value_optional.as_ref().unwrap());
                let mut mc: Vec<RawMessageContent> = Vec::new();
                match row {
                    Some(x) => mc.push(x),
                    None => {},
                }
                ("service", Some(st.to_owned()), mc, files, None, 0, None, None)
            },
        };
    (FullRawMessage {
        m: RawMessage {
            internal_id: None,
            ds_uuid: slice_to_vec(raw_uuid),
            chat_id,
            source_id: m.source_id_option,
            tpe: tpe.to_owned(),
            subtype,
            time_sent: m.timestamp,
            time_edited,
            is_deleted,
            from_id: m.from_id,
            forward_from_name,
            reply_to_message_id,
            searchable_string: m.searchable_string.clone(),
        },
        mc,
        rtes,
    }, files)
}

/// Whether `m` is what a stored message is read back as: its fields from their columns, its
/// text from its element rows, its kind-specific part from its type and content rows (and, for
/// a service message, its subtype), and its searchable string computed anew.
pub open spec fn message_read(raw: FullRawMessage, m: Message) -> bool {
    let r = raw.m;
    &&& r.internal_id == Some(m.internal_id)
    &&& m.source_id_option == r.source_id
    &&& m.timestamp == r.time_sent
    &&& m.from_id == r.from_id
    &&& rtes_read(raw.rtes@, m.text@)
    &&& match m.typed {
        Some(t) => {
            &&& m.searchable_string@ == searchable_string_spec(m.text@, t)
            &&& match t {
                MessageTyped::Regular(mr) => {
                    &&& r.tpe@ == "regular"@
                    &&& mr.edit_timestamp_option == r.time_edited
                    &&& mr.is_deleted == (r.is_deleted == 1)
                    &&& mr.forward_from_name_option == r.forward_from_name
                    &&& mr.reply_to_message_id_option == r.reply_to_message_id
                    &&& contents_read(raw.mc@, mr.contents@)
                },
                MessageTyped::Service(ms) => {
                    &&& r.tpe@ == "service"@
                    &&& match (r.subtype, ms.sealed_value_optional) {
                        (Some(st), Some(v)) => service_read(st@, first_row(raw.mc@), Ok(v)),
                        _ => false,
                    }
                },
            }
        },
        None => false,
    }
}

/// Whether a stored message can be read back: it has its internal ID, its flags are flags, and
/// a service message has its subtype and at most one content row.
pub open spec fn raw_message_readable(raw: FullRawMessage) -> bool {
    &&& raw.m.internal_id is Some
    &&& forall|i: int| 0 <= i < raw.rtes@.len() ==> raw_rte_readable(#[trigger] raw.rtes@[i])
    &&& raw.m.tpe@ == "regular"@ ==> is_flag(raw.m.is_deleted)
    &&& raw.m.tpe@ == "regular"@ ==> forall|i: int| 0 <= i < raw.mc@.len() ==> raw_content_readable(#[trigger] raw.mc@[i])
    &&& raw.m.tpe@ == "service"@ ==> raw.m.subtype is Some && raw.mc@.len() <= 1 && raw_service_readable(first_row(raw.mc@))
}

/// The message a stored message stands for, see [`message_read`]. The first malformed text
/// element row is an error; then, for a regular message, the first malformed content row, and
/// for a service message, its subtype and content row as [`deserialize_service`] reads them; any
/// other type is unknown.
pub fn deserialize_message(raw: FullRawMessage) -> (r: Result<Message, MappingError>)
    requires
        raw_message_readable(raw),
    ensures
        match rtes_error(raw.rtes@) {
            Some(e) => r == Err::<Message, MappingError>(e),
            None => if raw.m.tpe@ == "regular"@ {
                match contents_error(raw.mc@) {
                    Some(e) => r == Err::<Message, MappingError>(e),
                    None => r matches Ok(m) && message_read(raw, m),
                }
            } else if raw.m.tpe@ == "service"@ {
                match r {
                    Ok(m) => message_read(raw, m),
                    Err(e) => service_read(raw.m.subtype.unwrap()@, first_row(raw.mc@), Err(e)),
                }
            } else {
                r == Err::<Message, MappingError>(MappingError::UnknownMessageType)
            },
        },
{
    let ghost g = raw;
    let FullRawMessage { m, mc, rtes } = raw;
    let text = match deserialize_rtes(rtes) {
        Ok(t) => t,
        Err(e) => return Err(e),
    };
    let typed = if str_eq(m.tpe.as_str(), "regular") {
        let contents = match deserialize_contents(mc) {
            Ok(cs) => cs,
            Err(e) => return Err(e),
        };
        proof {
            assert forall|i: int| 0 <= i < contents@.len() implies (#[trigger] contents@[i]).sealed_value_optional is Some by {
                assert(content_of_raw(g.mc@[i]) is Ok);
            }
        }
        MessageTyped::Regular(MessageRegular {
            edit_timestamp_option: m.time_edited,
            is_deleted: deserialize_bool(m.is_deleted),
            forward_from_name_option: m.forward_from_name,
            reply_to_message_id_option: m.reply_to_message_id,
            contents,
        })
    } else if str_eq(m.tpe.as_str(), "service") {
        let mut mc = mc;
        let first = if mc.len() == 0 {
            None
        } else {
            Some(mc.remove(0))
        };
        assert(first == first_row(g.mc@));
        let st = m.subtype.unwrap();
        match deserialize_service(st.as_str(), first) {
            Ok(v) => MessageTyped::Service(MessageService { sealed_value_optional: Some(v) }),
            Err(e) => return Err(e),
        }
    } else {
        return Err(MappingError::UnknownMessageType);
    };
    Ok(Message::new(m.internal_id.unwrap(), m.source_id, m.time_sent, UserId(m.from_id), text, typed))
}

/// A stored message as the database gives it back, with the internal ID it was given.
pub open spec fn with_internal_id(full: FullRawMessage, id: i64) -> FullRawMessage {
    FullRawMessage { m: RawMessage { internal_id: Some(id), ..full.m }, ..full }
}

proof fn lemma_rtes_readable(raws: Seq<RawRichTextElement>)
    requires
        forall|i: int| 0 <= i < raws.len() ==> (#[trigger] rte_of_raw(raws[i])) is Ok,
    ensures
        rtes_error(raws) is None,
    decreases raws.len(),
{
    if raws.len() > 0 {
        let p = raws.drop_last();
        assert forall|i: int| 0 <= i < p.len() implies (#[trigger] rte_of_raw(p[i])) is Ok by {
            assert(p[i] == raws[i]);
        }
        lemma_rtes_readable(p);
        assert(rte_of_raw(raws[raws.len() - 1]) is Ok);
    }
}

proof fn lemma_contents_readable(raws: Seq<RawMessageContent>)
    requires
        forall|i: int| 0 <= i < raws.len() ==> (#[trigger] content_of_raw(raws[i])) is Ok,
    ensures
        contents_error(raws) is None,
    decreases raws.len(),
{
    if raws.len() > 0 {
        let p = raws.drop_last();
        assert forall|i: int| 0 <= i < p.len() implies (#[trigger] content_of_raw(p[i])) is Ok by {
            assert(p[i] == raws[i]);
        }
        lemma_contents_readable(p);
        assert(content_of_raw(raws[raws.len() - 1]) is Ok);
    }
}

/// What is stored of a message, given back with its internal ID, is read back as the same
/// message: its fields, the values of its text elements, and its contents or (up to how its
/// members are stored) its service value. The exceptions are those of the service values:
/// members holding a semicolon, a single empty name, and an empty list of invited or removed
/// members.
pub proof fn law_message_round_trip(m: Message, chat_id: i64, ds: Seq<u8>, full: FullRawMessage, back: Message)
    requires
        message_storable(m),
        raw_of_message(m, chat_id, ds, full),
        m.typed.unwrap() matches MessageTyped::Service(ms) ==> {
            let v = ms.sealed_value_optional.unwrap();
            &&& match service_members(v) {
                Some(mems) => semicolon_free(mems) && !(mems.len() == 1 && mems[0].len() == 0),
                None => true,
            }
            &&& (v is GroupInviteMembers || v is GroupRemoveMembers) ==> service_members(v).unwrap().len() > 0
        },
        message_read(with_internal_id(full, m.internal_id), back),
    ensures
        raw_message_readable(with_internal_id(full, m.internal_id)),
        rtes_error(full.rtes@) is None,
        m.typed.unwrap() is Regular ==> contents_error(full.mc@) is None,
        back.internal_id == m.internal_id,
        back.source_id_option == m.source_id_option,
        back.timestamp == m.timestamp,
        back.from_id == m.from_id,
        back.text@.len() == m.text@.len(),
        forall|i: int| 0 <= i < m.text@.len() ==> (#[trigger] back.text@[i]).val == m.text@[i].val,
        match (m.typed.unwrap(), back.typed.unwrap()) {
            (MessageTyped::Regular(a), MessageTyped::Regular(b)) => {
                &&& b.edit_timestamp_option == a.edit_timestamp_option
                &&& b.is_deleted == a.is_deleted
                &&& b.forward_from_name_option == a.forward_from_name_option
                &&& b.reply_to_message_id_option == a.reply_to_message_id_option
                &&& b.contents@ == a.contents@
            },
            (MessageTyped::Service(a), MessageTyped::Service(b)) => same_service(
                b.sealed_value_optional.unwrap(),
                a.sealed_value_optional.unwrap(),
            ),
            _ => false,
        },
{
    reveal_strlit("regular");
    reveal_strlit("service");
    let stored = with_internal_id(full, m.internal_id);
    assert("regular"@[0] != "service"@[0]);
    // Text elements.
    assert forall|i: int| 0 <= i < full.rtes@.len() implies (#[trigger] rte_of_raw(full.rtes@[i])) == Ok::<
        RteVal,
        MappingError,
    >(m.text@[i].val.unwrap()) && raw_rte_readable(full.rtes@[i]) by {
        assert(raw_of_rte((m.text@[i]).val.unwrap(), full.rtes@[i]));
        law_rte_round_trip(m.text@[i].val.unwrap(), full.rtes@[i]);
    }
    lemma_rtes_readable(full.rtes@);
    assert forall|i: int| 0 <= i < stored.rtes@.len() implies raw_rte_readable(#[trigger] stored.rtes@[i]) by {
        assert(rte_of_raw(full.rtes@[i]) is Ok);
    }
    assert forall|i: int| 0 <= i < m.text@.len() implies (#[trigger] back.text@[i]).val == m.text@[i].val by {
        assert(rte_of_raw(full.rtes@[i]) == Ok::<RteVal, MappingError>(m.text@[i].val.unwrap()));
    }
    match m.typed.unwrap() {
        MessageTyped::Regular(a) => {
            let cs = a.contents@;
            assert forall|i: int| 0 <= i < full.mc@.len() implies (#[trigger] content_of_raw(full.mc@[i])) == Ok::<
                ContentValue,
                MappingError,
            >(cs[i].sealed_value_optional.unwrap()) && raw_content_readable(full.mc@[i]) by {
                assert(content_storable(cs[i]));
                let v = cs[i].sealed_value_optional.unwrap();
                assert(full.mc@[i].element_type@ == content_type_name(v));
                law_content_round_trip(v, full.mc@[i].element_type);
            }
            lemma_contents_readable(full.mc@);
            assert forall|i: int| 0 <= i < stored.mc@.len() implies raw_content_readable(#[trigger] stored.mc@[i]) by {
                assert(content_of_raw(full.mc@[i]) is Ok);
            }
            match back.typed.unwrap() {
                MessageTyped::Regular(b) => {
                    assert forall|i: int| 0 <= i < cs.len() implies #[trigger] b.contents@[i] == cs[i] by {
                        assert(content_storable(cs[i]));
                        assert(content_of_raw(full.mc@[i]) == Ok::<ContentValue, MappingError>(
                            cs[i].sealed_value_optional.unwrap(),
                        ));
                    }
                    assert(b.contents@ =~= cs);
                },
                MessageTyped::Service(_) => {},
            }
        },
        MessageTyped::Service(a) => {
            let v = a.sealed_value_optional.unwrap();
            match back.typed.unwrap() {
                MessageTyped::Service(b) => {
                    let u = b.sealed_value_optional.unwrap();
                    law_service_round_trip(v, first_row(full.mc@), Ok::<MessageServiceValue, MappingError>(u));
                },
                MessageTyped::Regular(_) => {},
            }
        },
    }
}

} // verus!
