//! Practical equality of entities.
//!
//! Practical equality is different from full equality like this:
//! 1. Internal IDs are ignored.
//! 2. External content paths might differ BUT the content itself must match.
//! 3. "Forwarded from" name is ignored (as its changes are not related to this message).
use vstd::prelude::*;
use crate::model::{Message, MessageTyped, MessageRegular, MessageService, MessageServiceValue, Content,
    ContentValue, ContentPhoto, RichTextElement, RteVal, ChatWithDetails};
use crate::files::{DatasetRoot, join_path, join_paths, files_are_equal, files_equal_spec};
use crate::facts::{Facts, number_bits, float_bits_eq, float_bits_equal};
use crate::text::{opt_chars, opt_string_eq, strings_chars, strings_eq};
use crate::rich_text::{normalized_searchable, RichText};
use crate::entity_utils::resolved_member_id;

verus! {

/// What practical equality sees of one side: the dataset root, the chat (needed to resolve
/// members of service messages) and the facts about the dataset's files and numbers.
pub struct EqSide<'a> {
    pub ds_root: &'a DatasetRoot,
    pub cwd: Option<&'a ChatWithDetails>,
    pub facts: &'a Facts,
}

/// Why a practical comparison could not be made.
#[derive(Clone, Copy, Debug, PartialEq, Eq, Structural)]
pub enum ComparisonError {
    /// A coordinate string does not parse as a number.
    UnparsableCoordinate,
}

/// The outcome of a comparison that may fail: `None` when it fails.
pub open spec fn outcome<E>(r: Result<bool, E>) -> Option<bool> {
    match r {
        Ok(b) => Some(b),
        Err(_) => None,
    }
}

//
// Rich text
//

/// Whether two rich text payloads are of the same kind with the same fields.
pub open spec fn rte_val_eq(a: RteVal, b: RteVal) -> bool {
    match (a, b) {
        (RteVal::Plain { text: t1 }, RteVal::Plain { text: t2 }) => t1@ == t2@,
        (RteVal::Bold { text: t1 }, RteVal::Bold { text: t2 }) => t1@ == t2@,
        (RteVal::Italic { text: t1 }, RteVal::Italic { text: t2 }) => t1@ == t2@,
        (RteVal::Underline { text: t1 }, RteVal::Underline { text: t2 }) => t1@ == t2@,
        (RteVal::Strikethrough { text: t1 }, RteVal::Strikethrough { text: t2 }) => t1@ == t2@,
        (
            RteVal::Link { text_option: t1, href: h1, hidden: d1 },
            RteVal::Link { text_option: t2, href: h2, hidden: d2 },
        ) => opt_chars(t1) == opt_chars(t2) && h1@ == h2@ && d1 == d2,
        (RteVal::PrefmtInline { text: t1 }, RteVal::PrefmtInline { text: t2 }) => t1@ == t2@,
        (
            RteVal::PrefmtBlock { text: t1, language_option: l1 },
            RteVal::PrefmtBlock { text: t2, language_option: l2 },
        ) => t1@ == t2@ && opt_chars(l1) == opt_chars(l2),
        (RteVal::Blockquote { text: t1 }, RteVal::Blockquote { text: t2 }) => t1@ == t2@,
        (RteVal::Spoiler { text: t1 }, RteVal::Spoiler { text: t2 }) => t1@ == t2@,
        _ => false,
    }
}

pub open spec fn opt_rte_val_eq(a: Option<RteVal>, b: Option<RteVal>) -> bool {
    match (a, b) {
        (None, None) => true,
        (Some(x), Some(y)) => rte_val_eq(x, y),
        _ => false,
    }
}

/// Full equality of rich text elements.
pub open spec fn rte_eq(a: RichTextElement, b: RichTextElement) -> bool {
    opt_rte_val_eq(a.val, b.val) && a.searchable_string@ == b.searchable_string@
}

/// Full equality of rich texts.
pub open spec fn rtes_eq(a: Seq<RichTextElement>, b: Seq<RichTextElement>) -> bool {
    a.len() == b.len() && forall|i: int| 0 <= i < a.len() ==> rte_eq(#[trigger] a[i], b[i])
}

/// Italic, underlined and struck-through text is treated as bold: exports of one source
/// started to write double styles (bold and another) as bold only.
pub open spec fn comparable_val(v: Option<RteVal>) -> Option<RteVal> {
    match v {
        Some(RteVal::Italic { text }) => Some(RteVal::Bold { text }),
        Some(RteVal::Underline { text }) => Some(RteVal::Bold { text }),
        Some(RteVal::Strikethrough { text }) => Some(RteVal::Bold { text }),
        _ => v,
    }
}

/// Searchable string of the comparable form of an element: that of a bold element made
/// from the text for italic, underlined and struck-through text.
pub open spec fn comparable_searchable(r: RichTextElement) -> Seq<char> {
    match r.val {
        Some(RteVal::Italic { text }) => normalized_searchable(text@),
        Some(RteVal::Underline { text }) => normalized_searchable(text@),
        Some(RteVal::Strikethrough { text }) => normalized_searchable(text@),
        _ => r.searchable_string@,
    }
}

/// Equality of the comparable forms of rich text elements.
pub open spec fn rte_comparable_eq(a: RichTextElement, b: RichTextElement) -> bool {
    opt_rte_val_eq(comparable_val(a.val), comparable_val(b.val)) && comparable_searchable(a)
        == comparable_searchable(b)
}

pub open spec fn rtes_comparable_eq(a: Seq<RichTextElement>, b: Seq<RichTextElement>) -> bool {
    a.len() == b.len() && forall|i: int| 0 <= i < a.len() ==> rte_comparable_eq(#[trigger] a[i], b[i])
}

fn rte_val_equal(a: &RteVal, b: &RteVal) -> (r: bool)
    ensures
        r == rte_val_eq(*a, *b),
{
    match (a, b) {
        (RteVal::Plain { text: t1 }, RteVal::Plain { text: t2 }) => t1.eq(t2),
        (RteVal::Bold { text: t1 }, RteVal::Bold { text: t2 }) => t1.eq(t2),
        (RteVal::Italic { text: t1 }, RteVal::Italic { text: t2 }) => t1.eq(t2),
        (RteVal::Underline { text: t1 }, RteVal::Underline { text: t2 }) => t1.eq(t2),
        (RteVal::Strikethrough { text: t1 }, RteVal::Strikethrough { text: t2 }) => t1.eq(t2),
        (
            RteVal::Link { text_option: t1, href: h1, hidden: d1 },
            RteVal::Link { text_option: t2, href: h2, hidden: d2 },
        ) => opt_string_eq(t1, t2) && h1.eq(h2) && *d1 == *d2,
        (RteVal::PrefmtInline { text: t1 }, RteVal::PrefmtInline { text: t2 }) => t1.eq(t2),
        (
            RteVal::PrefmtBlock { text: t1, language_option: l1 },
            RteVal::PrefmtBlock { text: t2, language_option: l2 },
        ) => t1.eq(t2) && opt_string_eq(l1, l2),
        (RteVal::Blockquote { text: t1 }, RteVal::Blockquote { text: t2 }) => t1.eq(t2),
        (RteVal::Spoiler { text: t1 }, RteVal::Spoiler { text: t2 }) => t1.eq(t2),
        _ => false,
    }
}

fn opt_rte_val_equal(a: &Option<RteVal>, b: &Option<RteVal>) -> (r: bool)
    ensures
        r == opt_rte_val_eq(*a, *b),
{
    match (a, b) {
        (None, None) => true,
        (Some(x), Some(y)) => rte_val_equal(x, y),
        _ => false,
    }
}

/// Full equality of rich text elements.
pub fn rte_equal(a: &RichTextElement, b: &RichTextElement) -> (r: bool)
    ensures
        r == rte_eq(*a, *b),
{
    opt_rte_val_equal(&a.val, &b.val) && a.searchable_string.eq(&b.searchable_string)
}

/// Full equality of rich texts.
pub fn rtes_equal(a: &Vec<RichTextElement>, b: &Vec<RichTextElement>) -> (r: bool)
    ensures
        r == rtes_eq(a@, b@),
{
    if a.len() != b.len() {
        return false;
    }
    let mut i: usize = 0;
    while i < a.len()
        invariant
            a@.len() == b@.len(),
            0 <= i <= a@.len(),
            forall|k: int| 0 <= k < i ==> rte_eq(#[trigger] a@[k], b@[k]),
        decreases a@.len() - i,
    {
        if !rte_equal(&a[i], &b[i]) {
            return false;
        }
        i = i + 1;
    }
    true
}

/// The comparable form of an element, when it differs from the element itself.
fn to_comparable(r: &RichTextElement) -> (c: Option<RichTextElement>)
    ensures
        match c {
            Some(e) => e.val == comparable_val(r.val) && e.searchable_string@ == comparable_searchable(*r),
            None => comparable_val(r.val) == r.val && comparable_searchable(*r) == r.searchable_string@,
        },
{
    match &r.val {
        Some(RteVal::Italic { text }) => Some(RichText::make_bold(text.clone())),
        Some(RteVal::Underline { text }) => Some(RichText::make_bold(text.clone())),
        Some(RteVal::Strikethrough { text }) => Some(RichText::make_bold(text.clone())),
        _ => None,
    }
}

/// Equality of the comparable forms of rich text elements.
pub fn rte_comparable_equal(a: &RichTextElement, b: &RichTextElement) -> (r: bool)
    ensures
        r == rte_comparable_eq(*a, *b),
{
    let ca = to_comparable(a);
    let cb = to_comparable(b);
    let a1: &RichTextElement = match &ca {
        Some(e) => e,
        None => a,
    };
    let b1: &RichTextElement = match &cb {
        Some(e) => e,
        None => b,
    };
    opt_rte_val_equal(&a1.val, &b1.val) && a1.searchable_string.eq(&b1.searchable_string)
}

pub fn rtes_comparable_equal(a: &Vec<RichTextElement>, b: &Vec<RichTextElement>) -> (r: bool)
    ensures
        r == rtes_comparable_eq(a@, b@),
{
    if a.len() != b.len() {
        return false;
    }
    let mut i: usize = 0;
    while i < a.len()
        invariant
            a@.len() == b@.len(),
            0 <= i <= a@.len(),
            forall|k: int| 0 <= k < i ==> rte_comparable_eq(#[trigger] a@[k], b@[k]),
        decreases a@.len() - i,
    {
        if !rte_comparable_equal(&a[i], &b[i]) {
            return false;
        }
        i = i + 1;
    }
    true
}

//
// Files
//

/// Stands in for a missing path: two missing paths are equal.
pub const MISSING: &'static str = "[MISSING]";

pub open spec fn path_or_missing(p: Option<String>) -> Seq<char> {
    match p {
        Some(s) => s@,
        None => MISSING@,
    }
}

/// Practical equality of two (optional) relative paths: the files they name under their
/// dataset roots are equal (both missing, or same size and hash).
pub open spec fn path_pe(p1: Option<String>, s1: EqSide, p2: Option<String>, s2: EqSide) -> bool {
    files_equal_spec(
        s1.facts.files.meta_of(join_path(s1.ds_root.0@, path_or_missing(p1))),
        s2.facts.files.meta_of(join_path(s2.ds_root.0@, path_or_missing(p2))),
    )
}

pub(crate) fn path_practically_equals(p1: &Option<String>, s1: &EqSide, p2: &Option<String>, s2: &EqSide) -> (r: bool)
    ensures
        r == path_pe(*p1, *s1, *p2, *s2),
{
    let rel1: &str = match p1 {
        Some(p) => p.as_str(),
        None => MISSING,
    };
    let rel2: &str = match p2 {
        Some(p) => p.as_str(),
        None => MISSING,
    };
    let abs1 = join_paths(s1.ds_root.0.as_str(), rel1);
    let abs2 = join_paths(s2.ds_root.0.as_str(), rel2);
    files_are_equal(&s1.facts.files, abs1.as_str(), &s2.facts.files, abs2.as_str())
}

/// Practical equality of photos: the files are equal and so is everything else.
pub open spec fn photo_pe(a: ContentPhoto, s1: EqSide, b: ContentPhoto, s2: EqSide) -> bool {
    path_pe(a.path_option, s1, b.path_option, s2) && a.width == b.width && a.height == b.height
        && opt_chars(a.mime_type_option) == opt_chars(b.mime_type_option) && a.is_one_time == b.is_one_time
}

pub fn photo_practically_equals(a: &ContentPhoto, s1: &EqSide, b: &ContentPhoto, s2: &EqSide) -> (r: bool)
    ensures
        r == photo_pe(*a, *s1, *b, *s2),
{
    path_practically_equals(&a.path_option, s1, &b.path_option, s2) && a.width == b.width && a.height
        == b.height && opt_string_eq(&a.mime_type_option, &b.mime_type_option) && a.is_one_time
        == b.is_one_time
}

//
// Content
//

/// Practical equality of coordinates (latitude, then longitude): both must parse, and the
/// parsed values must be equal; `None` when a coordinate that is looked at does not parse.
pub open spec fn coordinates_pe(lat1: Seq<char>, lon1: Seq<char>, s1: EqSide, lat2: Seq<char>, lon2: Seq<char>, s2: EqSide) -> Option<bool> {
    match (number_bits(s1.facts.numbers@, lat1), number_bits(s2.facts.numbers@, lat2)) {
        (Some(a), Some(b)) => if !float_bits_eq(a, b) {
            Some(false)
        } else {
            match (number_bits(s1.facts.numbers@, lon1), number_bits(s2.facts.numbers@, lon2)) {
                (Some(c), Some(d)) => Some(float_bits_eq(c, d)),
                _ => None,
            }
        },
        _ => None,
    }
}

/// Practical equality of content payloads of the same kind: files are compared by content,
/// file names are ignored for the kinds whose file is compared, everything else must be equal.
pub open spec fn content_value_pe(a: ContentValue, s1: EqSide, b: ContentValue, s2: EqSide) -> Option<bool> {
    match (a, b) {
        (
            ContentValue::Sticker { path_option: p1, width: w1, height: h1, mime_type_option: m1, thumbnail_path_option: t1, emoji_option: e1, .. },
            ContentValue::Sticker { path_option: p2, width: w2, height: h2, mime_type_option: m2, thumbnail_path_option: t2, emoji_option: e2, .. },
        ) => Some(path_pe(p1, s1, p2, s2) && path_pe(t1, s1, t2, s2) && w1 == w2 && h1 == h2
            && opt_chars(m1) == opt_chars(m2) && opt_chars(e1) == opt_chars(e2)),
        (ContentValue::Photo(p1), ContentValue::Photo(p2)) => Some(photo_pe(p1, s1, p2, s2)),
        (
            ContentValue::VoiceMsg { path_option: p1, mime_type: m1, duration_sec_option: d1, .. },
            ContentValue::VoiceMsg { path_option: p2, mime_type: m2, duration_sec_option: d2, .. },
        ) => Some(path_pe(p1, s1, p2, s2) && m1@ == m2@ && d1 == d2),
        (
            ContentValue::Audio { path_option: p1, title_option: ti1, performer_option: pf1, mime_type: m1, duration_sec_option: d1, thumbnail_path_option: t1, .. },
            ContentValue::Audio { path_option: p2, title_option: ti2, performer_option: pf2, mime_type: m2, duration_sec_option: d2, thumbnail_path_option: t2, .. },
        ) => Some(path_pe(p1, s1, p2, s2) && path_pe(t1, s1, t2, s2) && opt_chars(ti1) == opt_chars(ti2)
            && opt_chars(pf1) == opt_chars(pf2) && m1@ == m2@ && d1 == d2),
        (
            ContentValue::VideoMsg { path_option: p1, width: w1, height: h1, mime_type: m1, duration_sec_option: d1, thumbnail_path_option: t1, is_one_time: o1, .. },
            ContentValue::VideoMsg { path_option: p2, width: w2, height: h2, mime_type: m2, duration_sec_option: d2, thumbnail_path_option: t2, is_one_time: o2, .. },
        ) => Some(path_pe(p1, s1, p2, s2) && path_pe(t1, s1, t2, s2) && w1 == w2 && h1 == h2 && m1@ == m2@
            && d1 == d2 && o1 == o2),
        (
            ContentValue::Video { path_option: p1, title_option: ti1, performer_option: pf1, width: w1, height: h1, mime_type: m1, duration_sec_option: d1, thumbnail_path_option: t1, is_one_time: o1, .. },
            ContentValue::Video { path_option: p2, title_option: ti2, performer_option: pf2, width: w2, height: h2, mime_type: m2, duration_sec_option: d2, thumbnail_path_option: t2, is_one_time: o2, .. },
        ) => Some(path_pe(p1, s1, p2, s2) && path_pe(t1, s1, t2, s2) && opt_chars(ti1) == opt_chars(ti2)
            && opt_chars(pf1) == opt_chars(pf2) && w1 == w2 && h1 == h2 && m1@ == m2@ && d1 == d2 && o1 == o2),
        (
            ContentValue::File { path_option: p1, mime_type_option: m1, thumbnail_path_option: t1, .. },
            ContentValue::File { path_option: p2, mime_type_option: m2, thumbnail_path_option: t2, .. },
        ) => Some(path_pe(p1, s1, p2, s2) && path_pe(t1, s1, t2, s2) && opt_chars(m1) == opt_chars(m2)),
        (
            ContentValue::Location { title_option: ti1, address_option: a1, lat_str: la1, lon_str: lo1, duration_sec_option: d1 },
            ContentValue::Location { title_option: ti2, address_option: a2, lat_str: la2, lon_str: lo2, duration_sec_option: d2 },
        ) => match coordinates_pe(la1@, lo1@, s1, la2@, lo2@, s2) {
            Some(true) => Some(opt_chars(ti1) == opt_chars(ti2) && opt_chars(a1) == opt_chars(a2) && d1 == d2),
            other => other,
        },
        (ContentValue::Poll { question: q1 }, ContentValue::Poll { question: q2 }) => Some(q1@ == q2@),
        (
            ContentValue::SharedContact { first_name_option: f1, last_name_option: l1, phone_number_option: n1, vcard_path_option: v1 },
            ContentValue::SharedContact { first_name_option: f2, last_name_option: l2, phone_number_option: n2, vcard_path_option: v2 },
        ) => Some(path_pe(v1, s1, v2, s2) && opt_chars(f1) == opt_chars(f2) && opt_chars(l1) == opt_chars(l2)
            && opt_chars(n1) == opt_chars(n2)),
        (ContentValue::TodoList { title_option: t1, items: i1 }, ContentValue::TodoList { title_option: t2, items: i2 }) =>
            Some(opt_chars(t1) == opt_chars(t2) && strings_chars(i1@) == strings_chars(i2@)),
        _ => Some(false),
    }
}

/// Practical equality of contents; contents of different kinds (or without payload) differ.
pub open spec fn content_pe(a: Content, s1: EqSide, b: Content, s2: EqSide) -> Option<bool> {
    match (a.sealed_value_optional, b.sealed_value_optional) {
        (Some(x), Some(y)) => content_value_pe(x, s1, y, s2),
        _ => Some(false),
    }
}

fn coordinates_practically_equal(lat1: &String, lon1: &String, s1: &EqSide, lat2: &String, lon2: &String, s2: &EqSide) -> (r: Result<bool, ComparisonError>)
    ensures
        outcome(r) == coordinates_pe(lat1@, lon1@, *s1, lat2@, lon2@, *s2),
{
    let a = match s1.facts.parsed_number(lat1.as_str()) {
        Some(a) => a,
        None => return Err(ComparisonError::UnparsableCoordinate),
    };
    let b = match s2.facts.parsed_number(lat2.as_str()) {
        Some(b) => b,
        None => return Err(ComparisonError::UnparsableCoordinate),
    };
    if !float_bits_equal(a, b) {
        return Ok(false);
    }
    let c = match s1.facts.parsed_number(lon1.as_str()) {
        Some(c) => c,
        None => return Err(ComparisonError::UnparsableCoordinate),
    };
    let d = match s2.facts.parsed_number(lon2.as_str()) {
        Some(d) => d,
        None => return Err(ComparisonError::UnparsableCoordinate),
    };
    Ok(float_bits_equal(c, d))
}

fn content_value_practically_equals(a: &ContentValue, s1: &EqSide, b: &ContentValue, s2: &EqSide) -> (r: Result<bool, ComparisonError>)
    ensures
        outcome(r) == content_value_pe(*a, *s1, *b, *s2),
{
    match (a, b) {
        (
            ContentValue::Sticker { path_option: p1, width: w1, height: h1, mime_type_option: m1, thumbnail_path_option: t1, emoji_option: e1, .. },
            ContentValue::Sticker { path_option: p2, width: w2, height: h2, mime_type_option: m2, thumbnail_path_option: t2, emoji_option: e2, .. },
        ) => Ok(path_practically_equals(p1, s1, p2, s2) && path_practically_equals(t1, s1, t2, s2) && *w1 == *w2
            && *h1 == *h2 && opt_string_eq(m1, m2) && opt_string_eq(e1, e2)),
        (ContentValue::Photo(p1), ContentValue::Photo(p2)) => Ok(photo_practically_equals(p1, s1, p2, s2)),
        (
            ContentValue::VoiceMsg { path_option: p1, mime_type: m1, duration_sec_option: d1, .. },
            ContentValue::VoiceMsg { path_option: p2, mime_type: m2, duration_sec_option: d2, .. },
        ) => Ok(path_practically_equals(p1, s1, p2, s2) && m1.eq(m2) && opt_i32_eq(d1, d2)),
        (
            ContentValue::Audio { path_option: p1, title_option: ti1, performer_option: pf1, mime_type: m1, duration_sec_option: d1, thumbnail_path_option: t1, .. },
            ContentValue::Audio { path_option: p2, title_option: ti2, performer_option: pf2, mime_type: m2, duration_sec_option: d2, thumbnail_path_option: t2, .. },
        ) => Ok(path_practically_equals(p1, s1, p2, s2) && path_practically_equals(t1, s1, t2, s2)
            && opt_string_eq(ti1, ti2) && opt_string_eq(pf1, pf2) && m1.eq(m2) && opt_i32_eq(d1, d2)),
        (
            ContentValue::VideoMsg { path_option: p1, width: w1, height: h1, mime_type: m1, duration_sec_option: d1, thumbnail_path_option: t1, is_one_time: o1, .. },
            ContentValue::VideoMsg { path_option: p2, width: w2, height: h2, mime_type: m2, duration_sec_option: d2, thumbnail_path_option: t2, is_one_time: o2, .. },
        ) => Ok(path_practically_equals(p1, s1, p2, s2) && path_practically_equals(t1, s1, t2, s2) && *w1 == *w2
            && *h1 == *h2 && m1.eq(m2) && opt_i32_eq(d1, d2) && *o1 == *o2),
        (
            ContentValue::Video { path_option: p1, title_option: ti1, performer_option: pf1, width: w1, height: h1, mime_type: m1, duration_sec_option: d1, thumbnail_path_option: t1, is_one_time: o1, .. },
            ContentValue::Video { path_option: p2, title_option: ti2, performer_option: pf2, width: w2, height: h2, mime_type: m2, duration_sec_option: d2, thumbnail_path_option: t2, is_one_time: o2, .. },
        ) => Ok(path_practically_equals(p1, s1, p2, s2) && path_practically_equals(t1, s1, t2, s2)
            && opt_string_eq(ti1, ti2) && opt_string_eq(pf1, pf2) && *w1 == *w2 && *h1 == *h2 && m1.eq(m2)
            && opt_i32_eq(d1, d2) && *o1 == *o2),
        (
            ContentValue::File { path_option: p1, mime_type_option: m1, thumbnail_path_option: t1, .. },
            ContentValue::File { path_option: p2, mime_type_option: m2, thumbnail_path_option: t2, .. },
        ) => Ok(path_practically_equals(p1, s1, p2, s2) && path_practically_equals(t1, s1, t2, s2)
            && opt_string_eq(m1, m2)),
        (
            ContentValue::Location { title_option: ti1, address_option: a1, lat_str: la1, lon_str: lo1, duration_sec_option: d1 },
            ContentValue::Location { title_option: ti2, address_option: a2, lat_str: la2, lon_str: lo2, duration_sec_option: d2 },
        ) => {
            match coordinates_practically_equal(la1, lo1, s1, la2, lo2, s2) {
                Ok(true) => Ok(opt_string_eq(ti1, ti2) && opt_string_eq(a1, a2) && opt_i32_eq(d1, d2)),
                other => other,
            }
        },
        (ContentValue::Poll { question: q1 }, ContentValue::Poll { question: q2 }) => Ok(q1.eq(q2)),
        (
            ContentValue::SharedContact { first_name_option: f1, last_name_option: l1, phone_number_option: n1, vcard_path_option: v1 },
            ContentValue::SharedContact { first_name_option: f2, last_name_option: l2, phone_number_option: n2, vcard_path_option: v2 },
        ) => Ok(path_practically_equals(v1, s1, v2, s2) && opt_string_eq(f1, f2) && opt_string_eq(l1, l2)
            && opt_string_eq(n1, n2)),
        (ContentValue::TodoList { title_option: t1, items: i1 }, ContentValue::TodoList { title_option: t2, items: i2 }) =>
            Ok(opt_string_eq(t1, t2) && strings_eq(i1, i2)),
        _ => Ok(false),
    }
}

pub(crate) fn opt_i32_eq(a: &Option<i32>, b: &Option<i32>) -> (r: bool)
    ensures
        r == (*a == *b),
{
    match (a, b) {
        (None, None) => true,
        (Some(x), Some(y)) => *x == *y,
        _ => false,
    }
}

pub fn content_practically_equals(a: &Content, s1: &EqSide, b: &Content, s2: &EqSide) -> (r: Result<bool, ComparisonError>)
    ensures
        outcome(r) == content_pe(*a, *s1, *b, *s2),
{
    match (&a.sealed_value_optional, &b.sealed_value_optional) {
        (Some(x), Some(y)) => content_value_practically_equals(x, s1, y, s2),
        _ => Ok(false),
    }
}

/// Practical equality of lists of contents from index `i` on: pairs are compared in order and
/// the first unequal (or failing) pair decides.
pub open spec fn contents_pe_from(a: Seq<Content>, s1: EqSide, b: Seq<Content>, s2: EqSide, i: int) -> Option<bool>
    decreases a.len() - i,
{
    if i < 0 || i >= a.len() || i >= b.len() {
        Some(true)
    } else {
        match content_pe(a[i], s1, b[i], s2) {
            Some(true) => contents_pe_from(a, s1, b, s2, i + 1),
            other => other,
        }
    }
}

/// Practical equality of lists of contents: same length, and pairwise practically equal.
pub open spec fn contents_pe(a: Seq<Content>, s1: EqSide, b: Seq<Content>, s2: EqSide) -> Option<bool> {
    if a.len() != b.len() {
        Some(false)
    } else {
        contents_pe_from(a, s1, b, s2, 0)
    }
}

pub fn contents_practically_equal(a: &Vec<Content>, s1: &EqSide, b: &Vec<Content>, s2: &EqSide) -> (r: Result<bool, ComparisonError>)
    ensures
        outcome(r) == contents_pe(a@, *s1, b@, *s2),
{
    if a.len() != b.len() {
        return Ok(false);
    }
    let mut i: usize = 0;
    while i < a.len()
        invariant
            a@.len() == b@.len(),
            0 <= i <= a@.len(),
            contents_pe(a@, *s1, b@, *s2) == contents_pe_from(a@, *s1, b@, *s2, i as int),
        decreases a@.len() - i,
    {
        match content_practically_equals(&a[i], s1, &b[i], s2) {
            Ok(true) => {},
            other => return other,
        }
        i = i + 1;
    }
    Ok(true)
}

} // verus!

verus! {

//
// Members
//

/// IDs of the chat members resolved from the given names (`None` for names not resolved).
pub open spec fn resolved_ids(members: Seq<String>, cwd: ChatWithDetails) -> Seq<Option<i64>> {
    Seq::new(members.len(), |i: int| resolved_member_id(cwd.members@, members[i]@))
}

/// Two lists of member names are practically equal if they resolve to the same set of IDs.
pub open spec fn members_pe(m1: Seq<String>, cwd1: ChatWithDetails, m2: Seq<String>, cwd2: ChatWithDetails) -> bool {
    resolved_ids(m1, cwd1).to_set() == resolved_ids(m2, cwd2).to_set()
}

pub(crate) fn contains_id(ids: &Vec<Option<i64>>, id: Option<i64>) -> (r: bool)
    ensures
        r == ids@.contains(id),
{
    let mut i: usize = 0;
    while i < ids.len()
        invariant
            0 <= i <= ids@.len(),
            forall|k: int| 0 <= k < i ==> ids@[k] != id,
        decreases ids@.len() - i,
    {
        if ids[i] == id {
            return true;
        }
        i = i + 1;
    }
    false
}

/// Whether every element of `a` occurs in `b`.
fn all_contained(a: &Vec<Option<i64>>, b: &Vec<Option<i64>>) -> (r: bool)
    ensures
        r == (forall|k: int| 0 <= k < a@.len() ==> b@.contains(#[trigger] a@[k])),
{
    let mut i: usize = 0;
    while i < a.len()
        invariant
            0 <= i <= a@.len(),
            forall|k: int| 0 <= k < i ==> b@.contains(#[trigger] a@[k]),
        decreases a@.len() - i,
    {
        if !contains_id(b, a[i]) {
            return false;
        }
        i = i + 1;
    }
    true
}

/// Two lists of member names are practically equal if they resolve to the same set of IDs.
pub fn members_practically_equals(m1: &Vec<String>, cwd1: &ChatWithDetails, m2: &Vec<String>, cwd2: &ChatWithDetails) -> (r: bool)
    ensures
        r == members_pe(m1@, *cwd1, m2@, *cwd2),
{
    let ids1 = cwd1.resolve_member_ids(m1);
    let ids2 = cwd2.resolve_member_ids(m2);
    proof {
        assert(ids1@ =~= resolved_ids(m1@, *cwd1));
        assert(ids2@ =~= resolved_ids(m2@, *cwd2));
    }
    let r = all_contained(&ids1, &ids2) && all_contained(&ids2, &ids1);
    proof {
        if r {
            assert forall|x: Option<i64>| ids1@.contains(x) <==> ids2@.contains(x) by {
                if ids1@.contains(x) {
                    let k = choose|k: int| 0 <= k < ids1@.len() && ids1@[k] == x;
                    assert(ids2@.contains(ids1@[k]));
                }
                if ids2@.contains(x) {
                    let k = choose|k: int| 0 <= k < ids2@.len() && ids2@[k] == x;
                    assert(ids1@.contains(ids2@[k]));
                }
            }
            assert(ids1@.to_set() =~= ids2@.to_set());
        } else {
            if ids1@.to_set() == ids2@.to_set() {
                assert forall|k: int| 0 <= k < ids1@.len() implies ids2@.contains(#[trigger] ids1@[k]) by {
                    assert(ids1@.to_set().contains(ids1@[k]));
                    assert(ids2@.to_set().contains(ids1@[k]));
                }
                assert forall|k: int| 0 <= k < ids2@.len() implies ids1@.contains(#[trigger] ids2@[k]) by {
                    assert(ids2@.to_set().contains(ids2@[k]));
                    assert(ids1@.to_set().contains(ids2@[k]));
                }
            }
        }
    }
    r
}

//
// Messages
//

/// Practical equality of service message payloads (the chats must be known on both sides).
pub open spec fn service_value_pe(a: MessageServiceValue, s1: EqSide, b: MessageServiceValue, s2: EqSide) -> bool {
    let cwd1 = s1.cwd.unwrap();
    let cwd2 = s2.cwd.unwrap();
    match (a, b) {
        (
            MessageServiceValue::PhoneCall { duration_sec_option: d1, discard_reason_option: r1, members: m1 },
            MessageServiceValue::PhoneCall { duration_sec_option: d2, discard_reason_option: r2, members: m2 },
        ) => d1 == d2 && opt_chars(r1) == opt_chars(r2) && strings_chars(m1@) == strings_chars(m2@) && members_pe(
            m1@,
            *cwd1,
            m2@,
            *cwd2,
        ),
        (MessageServiceValue::SuggestProfilePhoto { photo: p1 }, MessageServiceValue::SuggestProfilePhoto { photo: p2 }) =>
            photo_pe(p1, s1, p2, s2),
        (MessageServiceValue::PinMessage { message_id: i1 }, MessageServiceValue::PinMessage { message_id: i2 }) => i1 == i2,
        (MessageServiceValue::ClearHistory, MessageServiceValue::ClearHistory) => true,
        (MessageServiceValue::BlockUser { is_blocked: b1 }, MessageServiceValue::BlockUser { is_blocked: b2 }) => b1 == b2,
        (MessageServiceValue::StatusTextChanged, MessageServiceValue::StatusTextChanged) => true,
        (MessageServiceValue::Notice, MessageServiceValue::Notice) => true,
        (MessageServiceValue::GroupCreate { title: t1, members: m1 }, MessageServiceValue::GroupCreate { title: t2, members: m2 }) =>
            t1@ == t2@ && members_pe(m1@, *cwd1, m2@, *cwd2),
        (MessageServiceValue::GroupEditTitle { title: t1 }, MessageServiceValue::GroupEditTitle { title: t2 }) => t1@ == t2@,
        (MessageServiceValue::GroupEditPhoto { photo: p1 }, MessageServiceValue::GroupEditPhoto { photo: p2 }) =>
            photo_pe(p1, s1, p2, s2),
        (MessageServiceValue::GroupDeletePhoto, MessageServiceValue::GroupDeletePhoto) => true,
        (MessageServiceValue::GroupInviteMembers { members: m1 }, MessageServiceValue::GroupInviteMembers { members: m2 }) =>
            members_pe(m1@, *cwd1, m2@, *cwd2),
        (MessageServiceValue::GroupRemoveMembers { members: m1 }, MessageServiceValue::GroupRemoveMembers { members: m2 }) =>
            members_pe(m1@, *cwd1, m2@, *cwd2),
        (MessageServiceValue::GroupMigrateFrom { title: t1 }, MessageServiceValue::GroupMigrateFrom { title: t2 }) => t1@ == t2@,
        (MessageServiceValue::GroupMigrateTo, MessageServiceValue::GroupMigrateTo) => true,
        _ => false,
    }
}

pub open spec fn service_pe(a: MessageService, s1: EqSide, b: MessageService, s2: EqSide) -> bool {
    match (a.sealed_value_optional, b.sealed_value_optional) {
        (Some(x), Some(y)) => service_value_pe(x, s1, y, s2),
        _ => false,
    }
}

pub fn service_practically_equals(a: &MessageService, s1: &EqSide, b: &MessageService, s2: &EqSide) -> (r: bool)
    requires
        s1.cwd is Some,
        s2.cwd is Some,
    ensures
        r == service_pe(*a, *s1, *b, *s2),
{
    let cwd1 = s1.cwd.unwrap();
    let cwd2 = s2.cwd.unwrap();
    match (&a.sealed_value_optional, &b.sealed_value_optional) {
        (Some(x), Some(y)) => match (x, y) {
            (
                MessageServiceValue::PhoneCall { duration_sec_option: d1, discard_reason_option: r1, members: m1 },
                MessageServiceValue::PhoneCall { duration_sec_option: d2, discard_reason_option: r2, members: m2 },
            ) => opt_i32_eq(d1, d2) && opt_string_eq(r1, r2) && strings_eq(m1, m2) && members_practically_equals(
                m1,
                cwd1,
                m2,
                cwd2,
            ),
            (MessageServiceValue::SuggestProfilePhoto { photo: p1 }, MessageServiceValue::SuggestProfilePhoto { photo: p2 }) =>
                photo_practically_equals(p1, s1, p2, s2),
            (MessageServiceValue::PinMessage { message_id: i1 }, MessageServiceValue::PinMessage { message_id: i2 }) => *i1 == *i2,
            (MessageServiceValue::ClearHistory, MessageServiceValue::ClearHistory) => true,
            (MessageServiceValue::BlockUser { is_blocked: b1 }, MessageServiceValue::BlockUser { is_blocked: b2 }) => *b1 == *b2,
            (MessageServiceValue::StatusTextChanged, MessageServiceValue::StatusTextChanged) => true,
            (MessageServiceValue::Notice, MessageServiceValue::Notice) => true,
            (MessageServiceValue::GroupCreate { title: t1, members: m1 }, MessageServiceValue::GroupCreate { title: t2, members: m2 }) =>
                t1.eq(t2) && members_practically_equals(m1, cwd1, m2, cwd2),
            (MessageServiceValue::GroupEditTitle { title: t1 }, MessageServiceValue::GroupEditTitle { title: t2 }) => t1.eq(t2),
            (MessageServiceValue::GroupEditPhoto { photo: p1 }, MessageServiceValue::GroupEditPhoto { photo: p2 }) =>
                photo_practically_equals(p1, s1, p2, s2),
            (MessageServiceValue::GroupDeletePhoto, MessageServiceValue::GroupDeletePhoto) => true,
            (MessageServiceValue::GroupInviteMembers { members: m1 }, MessageServiceValue::GroupInviteMembers { members: m2 }) =>
                members_practically_equals(m1, cwd1, m2, cwd2),
            (MessageServiceValue::GroupRemoveMembers { members: m1 }, MessageServiceValue::GroupRemoveMembers { members: m2 }) =>
                members_practically_equals(m1, cwd1, m2, cwd2),
            (MessageServiceValue::GroupMigrateFrom { title: t1 }, MessageServiceValue::GroupMigrateFrom { title: t2 }) => t1.eq(t2),
            (MessageServiceValue::GroupMigrateTo, MessageServiceValue::GroupMigrateTo) => true,
            _ => false,
        },
        _ => false,
    }
}

/// Practical equality of regular message parts: edit time, deletion flag and reply target
/// must be equal, the forwarded-from name is ignored, and the contents practically equal.
pub open spec fn regular_pe(a: MessageRegular, s1: EqSide, b: MessageRegular, s2: EqSide) -> Option<bool> {
    if !(a.edit_timestamp_option == b.edit_timestamp_option && a.is_deleted == b.is_deleted
        && a.reply_to_message_id_option == b.reply_to_message_id_option) {
        Some(false)
    } else {
        contents_pe(a.contents@, s1, b.contents@, s2)
    }
}

pub open spec fn typed_pe(a: MessageTyped, s1: EqSide, b: MessageTyped, s2: EqSide) -> Option<bool> {
    match (a, b) {
        (MessageTyped::Regular(r1), MessageTyped::Regular(r2)) => regular_pe(r1, s1, r2, s2),
        (MessageTyped::Service(v1), MessageTyped::Service(v2)) => Some(service_pe(v1, s1, v2, s2)),
        _ => Some(false),
    }
}

pub(crate) fn opt_i64_eq(a: &Option<i64>, b: &Option<i64>) -> (r: bool)
    ensures
        r == (*a == *b),
{
    match (a, b) {
        (None, None) => true,
        (Some(x), Some(y)) => *x == *y,
        _ => false,
    }
}

pub fn regular_practically_equals(a: &MessageRegular, s1: &EqSide, b: &MessageRegular, s2: &EqSide) -> (r: Result<bool, ComparisonError>)
    ensures
        outcome(r) == regular_pe(*a, *s1, *b, *s2),
{
    if !(opt_i64_eq(&a.edit_timestamp_option, &b.edit_timestamp_option) && a.is_deleted == b.is_deleted
        && opt_i64_eq(&a.reply_to_message_id_option, &b.reply_to_message_id_option)) {
        return Ok(false);
    }
    contents_practically_equal(&a.contents, s1, &b.contents, s2)
}

pub fn typed_practically_equals(a: &MessageTyped, s1: &EqSide, b: &MessageTyped, s2: &EqSide) -> (r: Result<bool, ComparisonError>)
    requires
        (a is Service && b is Service) ==> (s1.cwd is Some && s2.cwd is Some),
    ensures
        outcome(r) == typed_pe(*a, *s1, *b, *s2),
{
    match (a, b) {
        (MessageTyped::Regular(r1), MessageTyped::Regular(r2)) => regular_practically_equals(r1, s1, r2, s2),
        (MessageTyped::Service(v1), MessageTyped::Service(v2)) => Ok(service_practically_equals(v1, s1, v2, s2)),
        _ => Ok(false),
    }
}

/// Practical equality of messages, the left one taken with the given timestamp: internal
/// and source IDs and searchable strings are ignored; time, author and text must be equal,
/// and the kind-specific parts practically equal.
pub open spec fn message_pe_at(a: Message, a_timestamp: i64, s1: EqSide, b: Message, s2: EqSide) -> Option<bool> {
    if !(a_timestamp == b.timestamp && a.from_id == b.from_id && rtes_eq(a.text@, b.text@)) {
        Some(false)
    } else {
        typed_pe(a.typed.unwrap(), s1, b.typed.unwrap(), s2)
    }
}

pub open spec fn message_pe(a: Message, s1: EqSide, b: Message, s2: EqSide) -> Option<bool> {
    message_pe_at(a, a.timestamp, s1, b, s2)
}

/// Whether comparing these two messages has what it needs: both kind-specific parts, and
/// both chats when both messages are service messages.
pub open spec fn comparable_messages(a: Message, s1: EqSide, b: Message, s2: EqSide) -> bool {
    &&& a.typed is Some
    &&& b.typed is Some
    &&& (a.typed.unwrap() is Service && b.typed.unwrap() is Service) ==> (s1.cwd is Some && s2.cwd is Some)
}

pub fn message_practically_equals_at(a: &Message, a_timestamp: i64, s1: &EqSide, b: &Message, s2: &EqSide) -> (r: Result<bool, ComparisonError>)
    requires
        comparable_messages(*a, *s1, *b, *s2),
    ensures
        outcome(r) == message_pe_at(*a, a_timestamp, *s1, *b, *s2),
{
    if !(a_timestamp == b.timestamp && a.from_id == b.from_id && rtes_equal(&a.text, &b.text)) {
        return Ok(false);
    }
    typed_practically_equals(a.typed(), s1, b.typed(), s2)
}

//
// Practical equality through a trait
//

/// A value together with what its practical equality needs to know of its side: the
/// dataset root its paths are relative to, its chat and the facts about the dataset.
pub struct PracticalEqTuple<'a, T> {
    pub v: &'a T,
    pub ds_root: &'a DatasetRoot,
    pub cwd: &'a ChatWithDetails,
    pub facts: &'a Facts,
}

impl<'a, T> PracticalEqTuple<'a, T> {
    /// What practical equality sees of this side.
    pub open spec fn side(&self) -> EqSide<'a> {
        EqSide { ds_root: self.ds_root, cwd: Some(self.cwd), facts: self.facts }
    }

    pub fn new(v: &'a T, ds_root: &'a DatasetRoot, cwd: &'a ChatWithDetails, facts: &'a Facts) -> (r: Self)
        ensures
            r.v == v,
            r.ds_root == ds_root,
            r.cwd == cwd,
            r.facts == facts,
    {
        PracticalEqTuple { v, ds_root, cwd, facts }
    }

    /// Another value on the same side.
    pub fn with<U>(&self, u: &'a U) -> (r: PracticalEqTuple<'a, U>)
        ensures
            r.v == u,
            r.ds_root == self.ds_root,
            r.cwd == self.cwd,
            r.facts == self.facts,
    {
        PracticalEqTuple::new(u, self.ds_root, self.cwd, self.facts)
    }

    /// A part of this value, picked by `f`, on the same side.
    pub fn apply<U, F: Fn(&'a T) -> &'a U>(&self, f: F) -> (r: PracticalEqTuple<'a, U>)
        requires
            f.requires((self.v,)),
        ensures
            f.ensures((self.v,), r.v),
            r.ds_root == self.ds_root,
            r.cwd == self.cwd,
            r.facts == self.facts,
    {
        PracticalEqTuple::new(f(self.v), self.ds_root, self.cwd, self.facts)
    }

    fn exec_side(&self) -> (r: EqSide<'a>)
        ensures
            r == self.side(),
    {
        EqSide { ds_root: self.ds_root, cwd: Some(self.cwd), facts: self.facts }
    }
}

/// Practical equality of two values on their sides.
pub trait PracticalEq: Sized {
    /// Whether the comparison with `other` is defined.
    spec fn comparable_with(&self, other: &Self) -> bool;

    /// Whether the values are practically equal; `None` where the comparison fails.
    spec fn equality_with(&self, other: &Self) -> Option<bool>;

    fn practically_equals(&self, other: &Self) -> (r: Result<bool, ComparisonError>)
        requires
            self.comparable_with(other),
        ensures
            outcome(r) == self.equality_with(other),
    ;
}

impl<'a> PracticalEq for PracticalEqTuple<'a, Message> {
    open spec fn comparable_with(&self, other: &Self) -> bool {
        self.v.typed is Some && other.v.typed is Some
    }

    open spec fn equality_with(&self, other: &Self) -> Option<bool> {
        message_pe(*self.v, self.side(), *other.v, other.side())
    }

    fn practically_equals(&self, other: &Self) -> (r: Result<bool, ComparisonError>) {
        message_practically_equals_at(self.v, self.v.timestamp, &self.exec_side(), other.v, &other.exec_side())
    }
}

impl<'a> PracticalEq for PracticalEqTuple<'a, MessageTyped> {
    open spec fn comparable_with(&self, other: &Self) -> bool {
        true
    }

    open spec fn equality_with(&self, other: &Self) -> Option<bool> {
        typed_pe(*self.v, self.side(), *other.v, other.side())
    }

    fn practically_equals(&self, other: &Self) -> (r: Result<bool, ComparisonError>) {
        typed_practically_equals(self.v, &self.exec_side(), other.v, &other.exec_side())
    }
}

impl<'a> PracticalEq for PracticalEqTuple<'a, MessageRegular> {
    open spec fn comparable_with(&self, other: &Self) -> bool {
        true
    }

    open spec fn equality_with(&self, other: &Self) -> Option<bool> {
        regular_pe(*self.v, self.side(), *other.v, other.side())
    }

    fn practically_equals(&self, other: &Self) -> (r: Result<bool, ComparisonError>) {
        regular_practically_equals(self.v, &self.exec_side(), other.v, &other.exec_side())
    }
}

impl<'a> PracticalEq for PracticalEqTuple<'a, MessageService> {
    open spec fn comparable_with(&self, other: &Self) -> bool {
        true
    }

    open spec fn equality_with(&self, other: &Self) -> Option<bool> {
        Some(service_pe(*self.v, self.side(), *other.v, other.side()))
    }

    fn practically_equals(&self, other: &Self) -> (r: Result<bool, ComparisonError>) {
        Ok(service_practically_equals(self.v, &self.exec_side(), other.v, &other.exec_side()))
    }
}

impl<'a> PracticalEq for PracticalEqTuple<'a, Content> {
    open spec fn comparable_with(&self, other: &Self) -> bool {
        true
    }

    open spec fn equality_with(&self, other: &Self) -> Option<bool> {
        content_pe(*self.v, self.side(), *other.v, other.side())
    }

    fn practically_equals(&self, other: &Self) -> (r: Result<bool, ComparisonError>) {
        content_practically_equals(self.v, &self.exec_side(), other.v, &other.exec_side())
    }
}

impl<'a> PracticalEq for PracticalEqTuple<'a, ContentPhoto> {
    open spec fn comparable_with(&self, other: &Self) -> bool {
        true
    }

    open spec fn equality_with(&self, other: &Self) -> Option<bool> {
        Some(photo_pe(*self.v, self.side(), *other.v, other.side()))
    }

    fn practically_equals(&self, other: &Self) -> (r: Result<bool, ComparisonError>) {
        Ok(photo_practically_equals(self.v, &self.exec_side(), other.v, &other.exec_side()))
    }
}

/// Internal and source IDs, searchable strings and forwarded-from names play no part in the
/// practical equality of regular messages.
pub proof fn law_practical_equality_ignores_ids(
    a: Message,
    s1: EqSide,
    b: Message,
    s2: EqSide,
    internal_id: i64,
    source_id_option: Option<i64>,
    searchable_string: String,
    forward_from_name_option: Option<String>,
)
    requires
        a.typed matches Some(MessageTyped::Regular(_)),
    ensures
        ({
            let r = a.typed.unwrap()->Regular_0;
            let a2 = Message {
                internal_id,
                source_id_option,
                searchable_string,
                typed: Some(MessageTyped::Regular(MessageRegular { forward_from_name_option, ..r })),
                ..a
            };
            message_pe(a2, s1, b, s2) == message_pe(a, s1, b, s2)
        }),
{
}

/// Contents found practically equal are of the same kind and agree on everything but their
/// files (and file names, and coordinates, which are compared as numbers): sizes, types,
/// durations, titles, performers, addresses, questions, names, phone numbers and to-do items.
pub proof fn law_practically_equal_contents_agree(a: ContentValue, s1: EqSide, b: ContentValue, s2: EqSide)
    requires
        content_value_pe(a, s1, b, s2) == Some(true),
    ensures
        match (a, b) {
            (
                ContentValue::Sticker { width: w1, height: h1, mime_type_option: m1, emoji_option: e1, .. },
                ContentValue::Sticker { width: w2, height: h2, mime_type_option: m2, emoji_option: e2, .. },
            ) => w1 == w2 && h1 == h2 && opt_chars(m1) == opt_chars(m2) && opt_chars(e1) == opt_chars(e2),
            (ContentValue::Photo(_), ContentValue::Photo(_)) => true,
            (
                ContentValue::VoiceMsg { mime_type: m1, duration_sec_option: d1, .. },
                ContentValue::VoiceMsg { mime_type: m2, duration_sec_option: d2, .. },
            ) => m1@ == m2@ && d1 == d2,
            (
                ContentValue::Audio { title_option: ti1, performer_option: pf1, mime_type: m1, duration_sec_option: d1, .. },
                ContentValue::Audio { title_option: ti2, performer_option: pf2, mime_type: m2, duration_sec_option: d2, .. },
            ) => opt_chars(ti1) == opt_chars(ti2) && opt_chars(pf1) == opt_chars(pf2) && m1@ == m2@ && d1 == d2,
            (
                ContentValue::VideoMsg { width: w1, height: h1, mime_type: m1, duration_sec_option: d1, is_one_time: o1, .. },
                ContentValue::VideoMsg { width: w2, height: h2, mime_type: m2, duration_sec_option: d2, is_one_time: o2, .. },
            ) => w1 == w2 && h1 == h2 && m1@ == m2@ && d1 == d2 && o1 == o2,
            (
                ContentValue::Video { title_option: ti1, performer_option: pf1, width: w1, height: h1, mime_type: m1, duration_sec_option: d1, is_one_time: o1, .. },
                ContentValue::Video { title_option: ti2, performer_option: pf2, width: w2, height: h2, mime_type: m2, duration_sec_option: d2, is_one_time: o2, .. },
            ) => opt_chars(ti1) == opt_chars(ti2) && opt_chars(pf1) == opt_chars(pf2) && w1 == w2 && h1 == h2
                && m1@ == m2@ && d1 == d2 && o1 == o2,
            (
                ContentValue::File { mime_type_option: m1, .. },
                ContentValue::File { mime_type_option: m2, .. },
            ) => opt_chars(m1) == opt_chars(m2),
            (
                ContentValue::Location { title_option: ti1, address_option: a1, duration_sec_option: d1, .. },
                ContentValue::Location { title_option: ti2, address_option: a2, duration_sec_option: d2, .. },
            ) => opt_chars(ti1) == opt_chars(ti2) && opt_chars(a1) == opt_chars(a2) && d1 == d2,
            (ContentValue::Poll { question: q1 }, ContentValue::Poll { question: q2 }) => q1@ == q2@,
            (
                ContentValue::SharedContact { first_name_option: f1, last_name_option: l1, phone_number_option: n1, .. },
                ContentValue::SharedContact { first_name_option: f2, last_name_option: l2, phone_number_option: n2, .. },
            ) => opt_chars(f1) == opt_chars(f2) && opt_chars(l1) == opt_chars(l2) && opt_chars(n1) == opt_chars(n2),
            (ContentValue::TodoList { title_option: t1, items: i1 }, ContentValue::TodoList { title_option: t2, items: i2 }) =>
                opt_chars(t1) == opt_chars(t2) && strings_chars(i1@) == strings_chars(i2@),
            _ => false,
        },
{
}

/// Every content but a location (whose coordinates must parse) is practically equal to itself
/// on the same side.
pub proof fn law_content_practically_equals_itself(a: ContentValue, s: EqSide)
    requires
        !(a is Location),
    ensures
        content_value_pe(a, s, a, s) == Some(true),
{
}

/// Practical equality of contents does not depend on which side each one is on.
pub proof fn law_content_practical_equality_is_symmetric(a: ContentValue, s1: EqSide, b: ContentValue, s2: EqSide)
    ensures
        content_value_pe(b, s2, a, s1) == content_value_pe(a, s1, b, s2),
{
}

} // verus!
