//! Practical comparison of entities: whether two versions of an entity match, conflict, or
//! one of them has more data than the other.
//!
//! Practical comparison is different from full equality like this:
//! * Internal IDs are ignored.
//! * External content paths are compared by file content, NOT by path.
//! * For content with path (photos, stickers, videos, etc), we compare only the files.
//!   Metadata like file name is only compared if files match.
//! * "Forwarded from" name is ignored (as its changes are not related to this message).
//! * Edit timestamp is ignored (as it's not interesting unless something else changed too).
//! * Italic, Underline and Strikethrough are considered equal to Bold, as one source started
//!   to export double styles (bold and another) as bold only.
use vstd::prelude::*;
use vstd::slice::slice_subrange;
use vstd::utf8::encode_utf8;
use crate::cmp_result::{EntityCmpResult, chain_result, from_bool_spec};
use crate::equality::{resolved_ids, members_practically_equals as same_member_sets, contains_id, EqSide,
    path_pe, path_practically_equals, rte_comparable_eq, rte_comparable_equal, opt_i32_eq, opt_i64_eq};
use crate::model::{ChatWithDetails, User, Chat, Message, MessageTyped, MessageRegular, MessageService,
    MessageServiceValue, Content, ContentValue, ContentPhoto, RichTextElement};
use crate::files::DatasetRoot;
use crate::facts::Facts;
use crate::message_utils::message_well_formed;
use crate::text::{opt_chars, opt_string_eq, str_eq, strings_chars, strings_eq};

verus! {

//
// Lists
//

/// Outcome of comparing two lists element by element (`pairwise` holds the outcomes for the
/// pairs at equal positions): empty lists are equal, a list has more than an empty one,
/// lists of equal length combine their pairwise outcomes, other lists conflict.
pub open spec fn lists_outcome(n1: nat, n2: nat, pairwise: Seq<EntityCmpResult>) -> EntityCmpResult {
    if n1 == 0 && n2 == 0 {
        EntityCmpResult::Equal
    } else if n1 == 0 {
        EntityCmpResult::RightHasMore
    } else if n2 == 0 {
        EntityCmpResult::LeftHasMore
    } else if n1 == n2 {
        chain_result(pairwise)
    } else {
        EntityCmpResult::Conflict
    }
}

/// Outcomes of comparing the elements at equal positions of two lists.
pub open spec fn pairwise<T>(a: Seq<T>, b: Seq<T>, f: spec_fn(T, T) -> EntityCmpResult) -> Seq<EntityCmpResult> {
    Seq::new(a.len(), |i: int| f(a[i], b[i]))
}

/// Outcome of comparing two lists of values that are compared by `f`, where lists of
/// different lengths conflict, two empty lists are equal, and lists of equal length combine
/// their pairwise outcomes.
pub open spec fn strict_lists_outcome(n1: nat, n2: nat, pairwise: Seq<EntityCmpResult>) -> EntityCmpResult {
    if n1 != n2 {
        EntityCmpResult::Conflict
    } else if n1 == 0 {
        EntityCmpResult::Equal
    } else {
        chain_result(pairwise)
    }
}

/// Compares two lists of equal length element by element and combines the outcomes.
fn chain_pairs<T, F: Fn(&T, &T) -> EntityCmpResult>(list1: &[T], list2: &[T], f: F, Ghost(spec_f): Ghost<spec_fn(T, T) -> EntityCmpResult>) -> (r: EntityCmpResult)
    requires
        list1@.len() == list2@.len(),
        list1@.len() > 0,
        forall|i: int| 0 <= i < list1@.len() ==> f.requires((&list1@[i], &list2@[i])),
        forall|x: &T, y: &T, c: EntityCmpResult| f.ensures((x, y), c) ==> c == spec_f(*x, *y),
    ensures
        r == chain_result(pairwise(list1@, list2@, spec_f)),
{
    let mut results: Vec<EntityCmpResult> = Vec::new();
    let mut i: usize = 0;
    while i < list1.len()
        invariant
            list1@.len() == list2@.len(),
            0 <= i <= list1@.len(),
            results@.len() == i,
            forall|i: int| 0 <= i < list1@.len() ==> f.requires((&list1@[i], &list2@[i])),
            forall|x: &T, y: &T, c: EntityCmpResult| f.ensures((x, y), c) ==> c == spec_f(*x, *y),
            forall|k: int| 0 <= k < i ==> results@[k] == spec_f(list1@[k], list2@[k]),
        decreases list1@.len() - i,
    {
        let c = f(&list1[i], &list2[i]);
        results.push(c);
        i = i + 1;
    }
    assert(results@ =~= pairwise(list1@, list2@, spec_f));
    EntityCmpResult::chain(results)
}

/// Compares two lists element by element: empty lists are equal, a list has more than an
/// empty one, lists of equal length combine their pairwise outcomes, other lists conflict.
pub fn compare_lists_res<T, F: Fn(&T, &T) -> EntityCmpResult>(list1: &[T], list2: &[T], f: F, Ghost(spec_f): Ghost<spec_fn(T, T) -> EntityCmpResult>) -> (r: EntityCmpResult)
    requires
        list1@.len() == list2@.len() ==> forall|i: int| 0 <= i < list1@.len() ==> f.requires((&list1@[i], &list2@[i])),
        forall|x: &T, y: &T, c: EntityCmpResult| f.ensures((x, y), c) ==> c == spec_f(*x, *y),
    ensures
        r == lists_outcome(list1@.len(), list2@.len(), pairwise(list1@, list2@, spec_f)),
{
    if list1.len() == 0 && list2.len() == 0 {
        EntityCmpResult::Equal
    } else if list1.len() == 0 {
        EntityCmpResult::RightHasMore
    } else if list2.len() == 0 {
        EntityCmpResult::LeftHasMore
    } else if list1.len() == list2.len() {
        chain_pairs(list1, list2, f, Ghost(spec_f))
    } else {
        EntityCmpResult::Conflict
    }
}

/// Compares two lists element by element: lists of different lengths conflict, two empty
/// lists are equal, lists of equal length combine their pairwise outcomes.
pub fn compare_lists<T, F: Fn(&T, &T) -> EntityCmpResult>(list1: &[T], list2: &[T], f: F, Ghost(spec_f): Ghost<spec_fn(T, T) -> EntityCmpResult>) -> (r: EntityCmpResult)
    requires
        list1@.len() == list2@.len() ==> forall|i: int| 0 <= i < list1@.len() ==> f.requires((&list1@[i], &list2@[i])),
        forall|x: &T, y: &T, c: EntityCmpResult| f.ensures((x, y), c) ==> c == spec_f(*x, *y),
    ensures
        r == strict_lists_outcome(list1@.len(), list2@.len(), pairwise(list1@, list2@, spec_f)),
{
    if list1.len() != list2.len() {
        return EntityCmpResult::Conflict;
    }
    if list1.len() == 0 {
        return EntityCmpResult::Equal;
    }
    chain_pairs(list1, list2, f, Ghost(spec_f))
}

/// Whether two lists hold the same values, each value of the first occurring in the second
/// and both being of the same length (the lists are expected to be small).
pub open spec fn same_values(l1: Seq<i64>, l2: Seq<i64>) -> bool {
    l1.len() == l2.len() && forall|i: int| 0 <= i < l1.len() ==> l2.contains(#[trigger] l1[i])
}

fn contains_i64(list: &[i64], v: i64) -> (r: bool)
    ensures
        r == list@.contains(v),
{
    let mut i: usize = 0;
    while i < list.len()
        invariant
            0 <= i <= list@.len(),
            forall|k: int| 0 <= k < i ==> list@[k] != v,
        decreases list@.len() - i,
    {
        if list[i] == v {
            return true;
        }
        i = i + 1;
    }
    false
}

/// Whether two lists are of the same length and every value of the first occurs in the second.
pub fn sets_are_equal(list1: &[i64], list2: &[i64]) -> (r: bool)
    ensures
        r == same_values(list1@, list2@),
{
    if list1.len() != list2.len() {
        return false;
    }
    let mut i: usize = 0;
    while i < list1.len()
        invariant
            list1@.len() == list2@.len(),
            0 <= i <= list1@.len(),
            forall|k: int| 0 <= k < i ==> list2@.contains(#[trigger] list1@[k]),
        decreases list1@.len() - i,
    {
        if !contains_i64(list2, list1[i]) {
            return false;
        }
        i = i + 1;
    }
    true
}

//
// Members
//

/// Two lists of member names match if they are the same names, or if they are equally long
/// and resolve to the same set of IDs, or if some resolved members have gone missing from
/// the second list but no resolved member has appeared in it.
pub open spec fn members_match(m1: Seq<String>, cwd1: ChatWithDetails, m2: Seq<String>, cwd2: ChatWithDetails) -> bool {
    if strings_chars(m1) == strings_chars(m2) {
        true
    } else if m1.len() != m2.len() {
        false
    } else {
        let s1 = resolved_ids(m1, cwd1).to_set();
        let s2 = resolved_ids(m2, cwd2).to_set();
        s1 == s2 || ((exists|id: i64| #[trigger] s1.contains(Some(id)) && !s2.contains(Some(id)))
            && (forall|id: i64| #[trigger] s2.contains(Some(id)) ==> s1.contains(Some(id))))
    }
}

/// Whether some resolved ID of `a` does not occur in `b`.
fn some_missing(a: &Vec<Option<i64>>, b: &Vec<Option<i64>>) -> (r: bool)
    ensures
        r == (exists|k: int| 0 <= k < a@.len() && (#[trigger] a@[k]) is Some && !b@.contains(a@[k])),
{
    let mut i: usize = 0;
    while i < a.len()
        invariant
            0 <= i <= a@.len(),
            forall|k: int| 0 <= k < i ==> !((#[trigger] a@[k]) is Some && !b@.contains(a@[k])),
        decreases a@.len() - i,
    {
        if a[i].is_some() && !contains_id(b, a[i]) {
            return true;
        }
        i = i + 1;
    }
    false
}

/// Two lists of member names match if they are the same names, or if they are equally long
/// and resolve to the same set of IDs, or if some resolved members have gone missing from
/// the second list but no resolved member has appeared in it.
pub fn members_practically_equals(m1: &Vec<String>, cwd1: &ChatWithDetails, m2: &Vec<String>, cwd2: &ChatWithDetails) -> (r: bool)
    ensures
        r == members_match(m1@, *cwd1, m2@, *cwd2),
{
    if strings_eq(m1, m2) {
        return true;
    }
    if m1.len() != m2.len() {
        proof {
            assert(strings_chars(m1@).len() != strings_chars(m2@).len());
        }
        return false;
    }
    if same_member_sets(m1, cwd1, m2, cwd2) {
        return true;
    }
    let ids1 = cwd1.resolve_member_ids(m1);
    let ids2 = cwd2.resolve_member_ids(m2);
    proof {
        assert(ids1@ =~= resolved_ids(m1@, *cwd1));
        assert(ids2@ =~= resolved_ids(m2@, *cwd2));
    }
    let disappeared = some_missing(&ids1, &ids2);
    let appeared = some_missing(&ids2, &ids1);
    let ghost s1 = ids1@.to_set();
    let ghost s2 = ids2@.to_set();
    proof {
        if disappeared {
            let k = choose|k: int| 0 <= k < ids1@.len() && (#[trigger] ids1@[k]) is Some && !ids2@.contains(ids1@[k]);
            let id = ids1@[k].unwrap();
            assert(s1.contains(Some(id)));
            assert(!s2.contains(Some(id)));
        } else {
            assert forall|id: i64| !(#[trigger] s1.contains(Some(id)) && !s2.contains(Some(id))) by {
                if s1.contains(Some(id)) && !s2.contains(Some(id)) {
                    let k = choose|k: int| 0 <= k < ids1@.len() && ids1@[k] == Some(id);
                    assert((#[trigger] ids1@[k]) is Some && !ids2@.contains(ids1@[k]));
                }
            }
        }
        if appeared {
            let k = choose|k: int| 0 <= k < ids2@.len() && (#[trigger] ids2@[k]) is Some && !ids1@.contains(ids2@[k]);
            let id = ids2@[k].unwrap();
            assert(s2.contains(Some(id)));
            assert(!s1.contains(Some(id)));
        } else {
            assert forall|id: i64| #[trigger] s2.contains(Some(id)) implies s1.contains(Some(id)) by {
                let k = choose|k: int| 0 <= k < ids2@.len() && ids2@[k] == Some(id);
                assert(!((#[trigger] ids2@[k]) is Some && !ids1@.contains(ids2@[k])));
            }
        }
    }
    disappeared && !appeared
}

//
// Coordinates
//

/// The bytes with every trailing `c` removed.
pub open spec fn trim_trailing(b: Seq<u8>, c: u8) -> Seq<u8>
    decreases b.len(),
{
    if b.len() > 0 && b.last() == c {
        trim_trailing(b.drop_last(), c)
    } else {
        b
    }
}

/// Significant part of a coordinate's text: trailing zeros, then trailing dots removed.
pub open spec fn coordinate_digits(s: Seq<char>) -> Seq<u8> {
    trim_trailing(trim_trailing(encode_utf8(s), 0x30u8), 0x2Eu8)
}

/// Whether `needle` occurs in `hay`.
pub open spec fn bytes_contain(hay: Seq<u8>, needle: Seq<u8>) -> bool {
    exists|i: int| 0 <= i <= hay.len() - needle.len() && #[trigger] hay.subrange(i, i + needle.len()) == needle
}

/// Comparison of two coordinates given as text: trailing zeros are ignored and a longer
/// text is more precise. Texts of equal significant length are equal when they are the same
/// and conflict otherwise; texts of different lengths, without their last digits: the one that
/// contains the other has more, else they conflict.
pub open spec fn coordinate_outcome(v1: Seq<char>, v2: Seq<char>) -> EntityCmpResult {
    let a = coordinate_digits(v1);
    let b = coordinate_digits(v2);
    if a.len() == 0 && b.len() == 0 {
        EntityCmpResult::Equal
    } else if a.len() == 0 {
        EntityCmpResult::RightHasMore
    } else if b.len() == 0 {
        EntityCmpResult::LeftHasMore
    } else if a.len() == b.len() {
        if a == b {
            EntityCmpResult::Equal
        } else {
            EntityCmpResult::Conflict
        }
    } else if bytes_contain(a.drop_last(), b.drop_last()) {
        EntityCmpResult::LeftHasMore
    } else if bytes_contain(b.drop_last(), a.drop_last()) {
        EntityCmpResult::RightHasMore
    } else {
        EntityCmpResult::Conflict
    }
}

/// Whether comparing two coordinates can drop their last digits: where that is done, the
/// last significant character of each is a single byte.
pub open spec fn coordinates_comparable(v1: Seq<char>, v2: Seq<char>) -> bool {
    let a = coordinate_digits(v1);
    let b = coordinate_digits(v2);
    (a.len() > 0 && b.len() > 0 && a.len() != b.len()) ==> (a.last() < 0x80u8 && b.last() < 0x80u8)
}

/// Length of the bytes once every trailing `c` in the first `n` is removed.
fn trimmed_len(b: &[u8], n: usize, c: u8) -> (r: usize)
    requires
        n <= b@.len(),
    ensures
        r <= n,
        b@.subrange(0, r as int) == trim_trailing(b@.subrange(0, n as int), c),
{
    let mut m = n;
    while m > 0 && b[m - 1] == c
        invariant
            m <= n <= b@.len(),
            trim_trailing(b@.subrange(0, n as int), c) == trim_trailing(b@.subrange(0, m as int), c),
        decreases m,
    {
        assert(b@.subrange(0, m as int).drop_last() =~= b@.subrange(0, m - 1));
        m = m - 1;
    }
    m
}

/// Whether `needle` occurs in `hay` at position `i`.
fn occurs_at(hay: &[u8], needle: &[u8], i: usize) -> (r: bool)
    requires
        i + needle@.len() <= hay@.len(),
    ensures
        r == (hay@.subrange(i as int, i + needle@.len()) == needle@),
{
    let n = hay.len();
    let mut j: usize = 0;
    while j < needle.len()
        invariant
            n == hay@.len(),
            i + needle@.len() <= hay@.len(),
            0 <= j <= needle@.len(),
            forall|k: int| 0 <= k < j ==> hay@[i + k] == needle@[k],
        decreases needle@.len() - j,
    {
        if hay[i + j] != needle[j] {
            assert(hay@.subrange(i as int, i + needle@.len())[j as int] != needle@[j as int]);
            return false;
        }
        j = j + 1;
    }
    assert(hay@.subrange(i as int, i + needle@.len()) =~= needle@);
    true
}

/// Whether `needle` occurs in `hay`.
fn slice_contains(hay: &[u8], needle: &[u8]) -> (r: bool)
    ensures
        r == bytes_contain(hay@, needle@),
{
    if needle.len() == 0 {
        assert(hay@.subrange(0int, 0int + needle@.len()) =~= needle@);
        return true;
    }
    if needle.len() > hay.len() {
        return false;
    }
    let n = hay.len();
    let last = n - needle.len();
    let mut i: usize = 0;
    while i <= last
        invariant
            n == hay@.len(),
            needle@.len() > 0,
            needle@.len() <= hay@.len(),
            last == hay@.len() - needle@.len(),
            0 <= i <= last + 1,
            forall|k: int| 0 <= k < i ==> #[trigger] hay@.subrange(k, k + needle@.len()) != needle@,
        decreases last + 1 - i,
    {
        if occurs_at(hay, needle, i) {
            return true;
        }
        i = i + 1;
    }
    false
}

/// Whether the first `n` bytes of two slices are the same.
fn prefixes_equal(b1: &[u8], b2: &[u8], n: usize) -> (r: bool)
    requires
        n <= b1@.len(),
        n <= b2@.len(),
    ensures
        r == (b1@.subrange(0, n as int) == b2@.subrange(0, n as int)),
{
    let mut i: usize = 0;
    while i < n
        invariant
            i <= n <= b1@.len(),
            n <= b2@.len(),
            forall|k: int| 0 <= k < i ==> b1@[k] == b2@[k],
        decreases n - i,
    {
        if b1[i] != b2[i] {
            assert(b1@.subrange(0, n as int)[i as int] != b2@.subrange(0, n as int)[i as int]);
            return false;
        }
        i = i + 1;
    }
    assert(b1@.subrange(0, n as int) =~= b2@.subrange(0, n as int));
    true
}

/// Compares two coordinates given as text, see [`coordinate_outcome`].
pub fn compare_lat_lon(v1: &str, v2: &str) -> (r: EntityCmpResult)
    requires
        coordinates_comparable(v1@, v2@),
    ensures
        r == coordinate_outcome(v1@, v2@),
{
    let b1 = v1.as_bytes();
    let b2 = v2.as_bytes();
    assert(b1@.subrange(0, b1@.len() as int) =~= b1@);
    assert(b2@.subrange(0, b2@.len() as int) =~= b2@);
    let z1 = trimmed_len(b1, b1.len(), 0x30);
    let n1 = trimmed_len(b1, z1, 0x2E);
    let z2 = trimmed_len(b2, b2.len(), 0x30);
    let n2 = trimmed_len(b2, z2, 0x2E);
    let ghost a = coordinate_digits(v1@);
    let ghost b = coordinate_digits(v2@);
    assert(b1@.subrange(0, n1 as int) == a);
    assert(b2@.subrange(0, n2 as int) == b);
    if n1 == 0 && n2 == 0 {
        EntityCmpResult::Equal
    } else if n1 == 0 {
        EntityCmpResult::RightHasMore
    } else if n2 == 0 {
        EntityCmpResult::LeftHasMore
    } else if n1 == n2 {
        if prefixes_equal(b1, b2, n1) {
            EntityCmpResult::Equal
        } else {
            EntityCmpResult::Conflict
        }
    } else {
        let s1 = slice_subrange(b1, 0, n1 - 1);
        let s2 = slice_subrange(b2, 0, n2 - 1);
        assert(s1@ =~= a.drop_last());
        assert(s2@ =~= b.drop_last());
        if slice_contains(s1, s2) {
            EntityCmpResult::LeftHasMore
        } else if slice_contains(s2, s1) {
            EntityCmpResult::RightHasMore
        } else {
            EntityCmpResult::Conflict
        }
    }
}

//
// Files
//

/// Comparison of two optional relative paths by the files they name (a missing path names
/// the placeholder file): equal files are equal, anything else conflicts.
pub open spec fn path_outcome(p1: Option<String>, s1: EqSide, p2: Option<String>, s2: EqSide) -> EntityCmpResult {
    from_bool_spec(path_pe(p1, s1, p2, s2))
}

/// Compares the files first; only where they match, everything else must be equal.
pub open spec fn with_paths(paths: Seq<EntityCmpResult>, rest_equal: bool) -> EntityCmpResult {
    if chain_result(paths) != EntityCmpResult::Equal {
        chain_result(paths)
    } else {
        from_bool_spec(rest_equal)
    }
}

/// Compares two optional relative paths by the files they name, see [`path_outcome`].
pub fn compare_paths(p1: &Option<String>, s1: &EqSide, p2: &Option<String>, s2: &EqSide) -> (r: EntityCmpResult)
    ensures
        r == path_outcome(*p1, *s1, *p2, *s2),
{
    EntityCmpResult::from_bool(path_practically_equals(p1, s1, p2, s2))
}

/// Compares one file first, then the rest.
fn paths_then_rest1(p: EntityCmpResult, rest_equal: bool) -> (r: EntityCmpResult)
    ensures
        r == with_paths(seq![p], rest_equal),
{
    let paths = vec![p];
    assert(paths@ =~= seq![p]);
    let c = EntityCmpResult::chain(paths);
    if !c.is_eq() {
        c
    } else {
        EntityCmpResult::from_bool(rest_equal)
    }
}

/// Compares two files first, then the rest.
fn paths_then_rest2(p: EntityCmpResult, q: EntityCmpResult, rest_equal: bool) -> (r: EntityCmpResult)
    ensures
        r == with_paths(seq![p, q], rest_equal),
{
    let paths = vec![p, q];
    assert(paths@ =~= seq![p, q]);
    let c = EntityCmpResult::chain(paths);
    if !c.is_eq() {
        c
    } else {
        EntityCmpResult::from_bool(rest_equal)
    }
}

/// Combines two outcomes.
fn chain2(a: EntityCmpResult, b: EntityCmpResult) -> (r: EntityCmpResult)
    ensures
        r == chain_result(seq![a, b]),
{
    let v = vec![a, b];
    assert(v@ =~= seq![a, b]);
    EntityCmpResult::chain(v)
}

/// Combines three outcomes.
fn chain3(a: EntityCmpResult, b: EntityCmpResult, c: EntityCmpResult) -> (r: EntityCmpResult)
    ensures
        r == chain_result(seq![a, b, c]),
{
    let v = vec![a, b, c];
    assert(v@ =~= seq![a, b, c]);
    EntityCmpResult::chain(v)
}

//
// Content
//

/// Comparison of photos: the files first, then everything else.
pub open spec fn photo_outcome(a: ContentPhoto, s1: EqSide, b: ContentPhoto, s2: EqSide) -> EntityCmpResult {
    with_paths(
        seq![path_outcome(a.path_option, s1, b.path_option, s2)],
        a.width == b.width && a.height == b.height && opt_chars(a.mime_type_option) == opt_chars(b.mime_type_option)
            && a.is_one_time == b.is_one_time,
    )
}

/// Compares photos, see [`photo_outcome`].
pub fn compare_photos(a: &ContentPhoto, s1: &EqSide, b: &ContentPhoto, s2: &EqSide) -> (r: EntityCmpResult)
    ensures
        r == photo_outcome(*a, *s1, *b, *s2),
{
    let path = compare_paths(&a.path_option, s1, &b.path_option, s2);
    let rest = a.width == b.width && a.height == b.height && opt_string_eq(&a.mime_type_option, &b.mime_type_option)
        && a.is_one_time == b.is_one_time;
    paths_then_rest1(path, rest)
}

/// Equality of the strings at equal positions of two lists.
pub open spec fn string_pairs(a: Seq<String>, b: Seq<String>) -> Seq<EntityCmpResult> {
    Seq::new(a.len(), |i: int| from_bool_spec(a[i]@ == b[i]@))
}

/// Items of two to-do lists, compared for equality.
pub open spec fn todo_items_outcome(items1: Seq<String>, items2: Seq<String>) -> EntityCmpResult {
    strict_lists_outcome(items1.len(), items2.len(), string_pairs(items1, items2))
}

/// Comparison of content payloads of the same kind: the files are compared first and the
/// other fields (but file names) only where they match; coordinates are compared as text,
/// to-do items one by one; payloads of different kinds conflict.
pub open spec fn content_value_outcome(a: ContentValue, s1: EqSide, b: ContentValue, s2: EqSide) -> EntityCmpResult {
    match (a, b) {
        (
            ContentValue::Sticker { path_option: p1, width: w1, height: h1, mime_type_option: m1, thumbnail_path_option: t1, emoji_option: e1, .. },
            ContentValue::Sticker { path_option: p2, width: w2, height: h2, mime_type_option: m2, thumbnail_path_option: t2, emoji_option: e2, .. },
        ) => with_paths(
            seq![path_outcome(p1, s1, p2, s2), path_outcome(t1, s1, t2, s2)],
            w1 == w2 && h1 == h2 && opt_chars(m1) == opt_chars(m2) && opt_chars(e1) == opt_chars(e2),
        ),
        (ContentValue::Photo(p1), ContentValue::Photo(p2)) => photo_outcome(p1, s1, p2, s2),
        (
            ContentValue::VoiceMsg { path_option: p1, mime_type: m1, duration_sec_option: d1, .. },
            ContentValue::VoiceMsg { path_option: p2, mime_type: m2, duration_sec_option: d2, .. },
        ) => with_paths(seq![path_outcome(p1, s1, p2, s2)], m1@ == m2@ && d1 == d2),
        (
            ContentValue::Audio { path_option: p1, title_option: ti1, performer_option: pe1, mime_type: m1, duration_sec_option: d1, thumbnail_path_option: t1, .. },
            ContentValue::Audio { path_option: p2, title_option: ti2, performer_option: pe2, mime_type: m2, duration_sec_option: d2, thumbnail_path_option: t2, .. },
        ) => with_paths(
            seq![path_outcome(p1, s1, p2, s2)],
            opt_chars(ti1) == opt_chars(ti2) && opt_chars(pe1) == opt_chars(pe2) && m1@ == m2@ && d1 == d2
                && opt_chars(t1) == opt_chars(t2),
        ),
        (
            ContentValue::VideoMsg { path_option: p1, width: w1, height: h1, mime_type: m1, duration_sec_option: d1, thumbnail_path_option: t1, is_one_time: o1, .. },
            ContentValue::VideoMsg { path_option: p2, width: w2, height: h2, mime_type: m2, duration_sec_option: d2, thumbnail_path_option: t2, is_one_time: o2, .. },
        ) => with_paths(
            seq![path_outcome(p1, s1, p2, s2), path_outcome(t1, s1, t2, s2)],
            w1 == w2 && h1 == h2 && m1@ == m2@ && d1 == d2 && o1 == o2,
        ),
        (
            ContentValue::Video { path_option: p1, title_option: ti1, performer_option: pe1, width: w1, height: h1, mime_type: m1, duration_sec_option: d1, thumbnail_path_option: t1, is_one_time: o1, .. },
            ContentValue::Video { path_option: p2, title_option: ti2, performer_option: pe2, width: w2, height: h2, mime_type: m2, duration_sec_option: d2, thumbnail_path_option: t2, is_one_time: o2, .. },
        ) => with_paths(
            seq![path_outcome(p1, s1, p2, s2), path_outcome(t1, s1, t2, s2)],
            opt_chars(ti1) == opt_chars(ti2) && opt_chars(pe1) == opt_chars(pe2) && w1 == w2 && h1 == h2
                && m1@ == m2@ && d1 == d2 && o1 == o2,
        ),
        (
            ContentValue::File { path_option: p1, mime_type_option: m1, thumbnail_path_option: t1, .. },
            ContentValue::File { path_option: p2, mime_type_option: m2, thumbnail_path_option: t2, .. },
        ) => with_paths(
            seq![path_outcome(p1, s1, p2, s2), path_outcome(t1, s1, t2, s2)],
            opt_chars(m1) == opt_chars(m2),
        ),
        (
            ContentValue::Location { title_option: ti1, address_option: a1, lat_str: la1, lon_str: lo1, duration_sec_option: d1 },
            ContentValue::Location { title_option: ti2, address_option: a2, lat_str: la2, lon_str: lo2, duration_sec_option: d2 },
        ) => chain_result(seq![
            coordinate_outcome(la1@, la2@),
            coordinate_outcome(lo1@, lo2@),
            from_bool_spec(opt_chars(ti1) == opt_chars(ti2) && opt_chars(a1) == opt_chars(a2) && d1 == d2),
        ]),
        (ContentValue::Poll { question: q1 }, ContentValue::Poll { question: q2 }) => from_bool_spec(q1@ == q2@),
        (
            ContentValue::SharedContact { first_name_option: f1, last_name_option: l1, phone_number_option: ph1, vcard_path_option: v1 },
            ContentValue::SharedContact { first_name_option: f2, last_name_option: l2, phone_number_option: ph2, vcard_path_option: v2 },
        ) => with_paths(
            seq![path_outcome(v1, s1, v2, s2)],
            opt_chars(f1) == opt_chars(f2) && opt_chars(l1) == opt_chars(l2) && opt_chars(ph1) == opt_chars(ph2),
        ),
        (ContentValue::TodoList { title_option: ti1, items: i1 }, ContentValue::TodoList { title_option: ti2, items: i2 }) =>
            chain_result(seq![from_bool_spec(opt_chars(ti1) == opt_chars(ti2)), todo_items_outcome(i1@, i2@)]),
        _ => EntityCmpResult::Conflict,
    }
}

/// Whether two content payloads can be compared: coordinates whose last digits are dropped
/// end in single-byte characters.
pub open spec fn content_value_comparable(a: ContentValue, b: ContentValue) -> bool {
    match (a, b) {
        (ContentValue::Location { lat_str: la1, lon_str: lo1, .. }, ContentValue::Location { lat_str: la2, lon_str: lo2, .. }) =>
            coordinates_comparable(la1@, la2@) && coordinates_comparable(lo1@, lo2@),
        _ => true,
    }
}

/// Comparison of contents: payloads of the same kind are compared, anything else conflicts.
pub open spec fn content_outcome(a: Content, s1: EqSide, b: Content, s2: EqSide) -> EntityCmpResult {
    match (a.sealed_value_optional, b.sealed_value_optional) {
        (Some(v1), Some(v2)) => content_value_outcome(v1, s1, v2, s2),
        _ => EntityCmpResult::Conflict,
    }
}

pub open spec fn content_comparable(a: Content, b: Content) -> bool {
    match (a.sealed_value_optional, b.sealed_value_optional) {
        (Some(v1), Some(v2)) => content_value_comparable(v1, v2),
        _ => true,
    }
}

fn compare_todo_items(i1: &Vec<String>, i2: &Vec<String>) -> (r: EntityCmpResult)
    ensures
        r == todo_items_outcome(i1@, i2@),
{
    let f = |x: &String, y: &String| -> (c: EntityCmpResult)
        ensures
            c == from_bool_spec(x@ == y@),
        { EntityCmpResult::from_bool(x.eq(y)) };
    let r = compare_lists(i1.as_slice(), i2.as_slice(), f, Ghost(|x: String, y: String| from_bool_spec(x@ == y@)));
    assert(pairwise(i1@, i2@, |x: String, y: String| from_bool_spec(x@ == y@)) =~= string_pairs(i1@, i2@));
    r
}

/// Compares content payloads, see [`content_value_outcome`].
pub fn compare_content_values(a: &ContentValue, s1: &EqSide, b: &ContentValue, s2: &EqSide) -> (r: EntityCmpResult)
    requires
        content_value_comparable(*a, *b),
    ensures
        r == content_value_outcome(*a, *s1, *b, *s2),
{
    match (a, b) {
        (
            ContentValue::Sticker { path_option: p1, width: w1, height: h1, mime_type_option: m1, thumbnail_path_option: t1, emoji_option: e1, .. },
            ContentValue::Sticker { path_option: p2, width: w2, height: h2, mime_type_option: m2, thumbnail_path_option: t2, emoji_option: e2, .. },
        ) => {
            let path = compare_paths(p1, s1, p2, s2);
            let thumb = compare_paths(t1, s1, t2, s2);
            let rest = *w1 == *w2 && *h1 == *h2 && opt_string_eq(m1, m2) && opt_string_eq(e1, e2);
            paths_then_rest2(path, thumb, rest)
        },
        (ContentValue::Photo(p1), ContentValue::Photo(p2)) => compare_photos(p1, s1, p2, s2),
        (
            ContentValue::VoiceMsg { path_option: p1, mime_type: m1, duration_sec_option: d1, .. },
            ContentValue::VoiceMsg { path_option: p2, mime_type: m2, duration_sec_option: d2, .. },
        ) => {
            let path = compare_paths(p1, s1, p2, s2);
            let rest = m1.eq(m2) && opt_i32_eq(d1, d2);
            paths_then_rest1(path, rest)
        },
        (
            ContentValue::Audio { path_option: p1, title_option: ti1, performer_option: pe1, mime_type: m1, duration_sec_option: d1, thumbnail_path_option: t1, .. },
            ContentValue::Audio { path_option: p2, title_option: ti2, performer_option: pe2, mime_type: m2, duration_sec_option: d2, thumbnail_path_option: t2, .. },
        ) => {
            let path = compare_paths(p1, s1, p2, s2);
            let rest = opt_string_eq(ti1, ti2) && opt_string_eq(pe1, pe2) && m1.eq(m2) && opt_i32_eq(d1, d2)
                && opt_string_eq(t1, t2);
            paths_then_rest1(path, rest)
        },
        (
            ContentValue::VideoMsg { path_option: p1, width: w1, height: h1, mime_type: m1, duration_sec_option: d1, thumbnail_path_option: t1, is_one_time: o1, .. },
            ContentValue::VideoMsg { path_option: p2, width: w2, height: h2, mime_type: m2, duration_sec_option: d2, thumbnail_path_option: t2, is_one_time: o2, .. },
        ) => {
            let path = compare_paths(p1, s1, p2, s2);
            let thumb = compare_paths(t1, s1, t2, s2);
            let rest = *w1 == *w2 && *h1 == *h2 && m1.eq(m2) && opt_i32_eq(d1, d2) && *o1 == *o2;
            paths_then_rest2(path, thumb, rest)
        },
        (
            ContentValue::Video { path_option: p1, title_option: ti1, performer_option: pe1, width: w1, height: h1, mime_type: m1, duration_sec_option: d1, thumbnail_path_option: t1, is_one_time: o1, .. },
            ContentValue::Video { path_option: p2, title_option: ti2, performer_option: pe2, width: w2, height: h2, mime_type: m2, duration_sec_option: d2, thumbnail_path_option: t2, is_one_time: o2, .. },
        ) => {
            let path = compare_paths(p1, s1, p2, s2);
            let thumb = compare_paths(t1, s1, t2, s2);
            let rest = opt_string_eq(ti1, ti2) && opt_string_eq(pe1, pe2) && *w1 == *w2 && *h1 == *h2 && m1.eq(m2)
                && opt_i32_eq(d1, d2) && *o1 == *o2;
            paths_then_rest2(path, thumb, rest)
        },
        (
            ContentValue::File { path_option: p1, mime_type_option: m1, thumbnail_path_option: t1, .. },
            ContentValue::File { path_option: p2, mime_type_option: m2, thumbnail_path_option: t2, .. },
        ) => {
            let path = compare_paths(p1, s1, p2, s2);
            let thumb = compare_paths(t1, s1, t2, s2);
            paths_then_rest2(path, thumb, opt_string_eq(m1, m2))
        },
        (
            ContentValue::Location { title_option: ti1, address_option: a1, lat_str: la1, lon_str: lo1, duration_sec_option: d1 },
            ContentValue::Location { title_option: ti2, address_option: a2, lat_str: la2, lon_str: lo2, duration_sec_option: d2 },
        ) => {
            chain3(
                compare_lat_lon(la1.as_str(), la2.as_str()),
                compare_lat_lon(lo1.as_str(), lo2.as_str()),
                EntityCmpResult::from_bool(opt_string_eq(ti1, ti2) && opt_string_eq(a1, a2) && opt_i32_eq(d1, d2)),
            )
        },
        (ContentValue::Poll { question: q1 }, ContentValue::Poll { question: q2 }) => EntityCmpResult::from_bool(q1.eq(q2)),
        (
            ContentValue::SharedContact { first_name_option: f1, last_name_option: l1, phone_number_option: ph1, vcard_path_option: v1 },
            ContentValue::SharedContact { first_name_option: f2, last_name_option: l2, phone_number_option: ph2, vcard_path_option: v2 },
        ) => {
            let path = compare_paths(v1, s1, v2, s2);
            paths_then_rest1(path, opt_string_eq(f1, f2) && opt_string_eq(l1, l2) && opt_string_eq(ph1, ph2))
        },
        (ContentValue::TodoList { title_option: ti1, items: i1 }, ContentValue::TodoList { title_option: ti2, items: i2 }) => {
            chain2(EntityCmpResult::from_bool(opt_string_eq(ti1, ti2)), compare_todo_items(i1, i2))
        },
        _ => EntityCmpResult::Conflict,
    }
}

/// Compares contents, see [`content_outcome`].
pub fn compare_content(a: &Content, s1: &EqSide, b: &Content, s2: &EqSide) -> (r: EntityCmpResult)
    requires
        content_comparable(*a, *b),
    ensures
        r == content_outcome(*a, *s1, *b, *s2),
{
    match (&a.sealed_value_optional, &b.sealed_value_optional) {
        (Some(v1), Some(v2)) => compare_content_values(v1, s1, v2, s2),
        _ => EntityCmpResult::Conflict,
    }
}

//
// Rich text
//

/// Comparison of rich text elements: elements without payload are equal, elements with
/// payload are equal if their comparable forms are (see [`rte_comparable_eq`]).
pub open spec fn rte_outcome(a: RichTextElement, b: RichTextElement) -> EntityCmpResult {
    from_bool_spec((a.val is None && b.val is None) || rte_comparable_eq(a, b))
}

/// Compares rich text elements, see [`rte_outcome`].
pub fn compare_rtes(a: &RichTextElement, b: &RichTextElement) -> (r: EntityCmpResult)
    ensures
        r == rte_outcome(*a, *b),
{
    EntityCmpResult::from_bool((a.val.is_none() && b.val.is_none()) || rte_comparable_equal(a, b))
}

//
// Messages
//

/// Outcomes of comparing the contents at equal positions of two lists.
pub open spec fn content_pairs(a: Seq<Content>, s1: EqSide, b: Seq<Content>, s2: EqSide) -> Seq<EntityCmpResult> {
    Seq::new(a.len(), |i: int| content_outcome(a[i], s1, b[i], s2))
}

/// Outcomes of comparing the rich text elements at equal positions of two lists.
pub open spec fn rte_pairs(a: Seq<RichTextElement>, b: Seq<RichTextElement>) -> Seq<EntityCmpResult> {
    Seq::new(a.len(), |i: int| rte_outcome(a[i], b[i]))
}

/// Comparison of lists of contents, element by element.
pub open spec fn contents_outcome(a: Seq<Content>, s1: EqSide, b: Seq<Content>, s2: EqSide) -> EntityCmpResult {
    lists_outcome(a.len(), b.len(), content_pairs(a, s1, b, s2))
}

/// Whether two lists of contents can be compared: where they are of equal length, the
/// contents at equal positions can be compared.
pub open spec fn contents_comparable(a: Seq<Content>, b: Seq<Content>) -> bool {
    a.len() == b.len() ==> forall|i: int| 0 <= i < a.len() ==> content_comparable(#[trigger] a[i], b[i])
}

/// Comparison of regular message parts: the deletion flags must be equal and the contents
/// are compared one by one; edit time, forwarded-from name and reply target are ignored.
pub open spec fn regular_outcome(a: MessageRegular, s1: EqSide, b: MessageRegular, s2: EqSide) -> EntityCmpResult {
    chain_result(seq![from_bool_spec(a.is_deleted == b.is_deleted), contents_outcome(a.contents@, s1, b.contents@, s2)])
}

/// Comparison of service message payloads of the same kind: members are matched through
/// both chats, photos by their files, everything else must be equal.
pub open spec fn service_outcome(a: MessageService, s1: EqSide, b: MessageService, s2: EqSide) -> EntityCmpResult {
    let cwd1 = *s1.cwd.unwrap();
    let cwd2 = *s2.cwd.unwrap();
    match (a.sealed_value_optional, b.sealed_value_optional) {
        (
            Some(MessageServiceValue::PhoneCall { duration_sec_option: d1, discard_reason_option: r1, members: m1 }),
            Some(MessageServiceValue::PhoneCall { duration_sec_option: d2, discard_reason_option: r2, members: m2 }),
        ) => from_bool_spec(d1 == d2 && opt_chars(r1) == opt_chars(r2) && members_match(m1@, cwd1, m2@, cwd2)),
        (Some(MessageServiceValue::SuggestProfilePhoto { photo: p1 }), Some(MessageServiceValue::SuggestProfilePhoto { photo: p2 })) =>
            photo_outcome(p1, s1, p2, s2),
        (Some(MessageServiceValue::PinMessage { message_id: i1 }), Some(MessageServiceValue::PinMessage { message_id: i2 })) =>
            from_bool_spec(i1 == i2),
        (Some(MessageServiceValue::ClearHistory), Some(MessageServiceValue::ClearHistory)) => EntityCmpResult::Equal,
        (Some(MessageServiceValue::BlockUser { is_blocked: b1 }), Some(MessageServiceValue::BlockUser { is_blocked: b2 })) =>
            from_bool_spec(b1 == b2),
        (Some(MessageServiceValue::StatusTextChanged), Some(MessageServiceValue::StatusTextChanged)) => EntityCmpResult::Equal,
        (Some(MessageServiceValue::Notice), Some(MessageServiceValue::Notice)) => EntityCmpResult::Equal,
        (
            Some(MessageServiceValue::GroupCreate { title: t1, members: m1 }),
            Some(MessageServiceValue::GroupCreate { title: t2, members: m2 }),
        ) => from_bool_spec(t1@ == t2@ && members_match(m1@, cwd1, m2@, cwd2)),
        (Some(MessageServiceValue::GroupEditTitle { title: t1 }), Some(MessageServiceValue::GroupEditTitle { title: t2 })) =>
            from_bool_spec(t1@ == t2@),
        (Some(MessageServiceValue::GroupEditPhoto { photo: p1 }), Some(MessageServiceValue::GroupEditPhoto { photo: p2 })) =>
            photo_outcome(p1, s1, p2, s2),
        (Some(MessageServiceValue::GroupDeletePhoto), Some(MessageServiceValue::GroupDeletePhoto)) => EntityCmpResult::Equal,
        (Some(MessageServiceValue::GroupInviteMembers { members: m1 }), Some(MessageServiceValue::GroupInviteMembers { members: m2 })) =>
            from_bool_spec(members_match(m1@, cwd1, m2@, cwd2)),
        (Some(MessageServiceValue::GroupRemoveMembers { members: m1 }), Some(MessageServiceValue::GroupRemoveMembers { members: m2 })) =>
            from_bool_spec(members_match(m1@, cwd1, m2@, cwd2)),
        (Some(MessageServiceValue::GroupMigrateFrom { title: t1 }), Some(MessageServiceValue::GroupMigrateFrom { title: t2 })) =>
            from_bool_spec(t1@ == t2@),
        (Some(MessageServiceValue::GroupMigrateTo), Some(MessageServiceValue::GroupMigrateTo)) => EntityCmpResult::Equal,
        _ => EntityCmpResult::Conflict,
    }
}

/// Comparison of the kind-specific parts of messages; parts of different kinds conflict.
pub open spec fn typed_outcome(a: MessageTyped, s1: EqSide, b: MessageTyped, s2: EqSide) -> EntityCmpResult {
    match (a, b) {
        (MessageTyped::Regular(r1), MessageTyped::Regular(r2)) => regular_outcome(r1, s1, r2, s2),
        (MessageTyped::Service(v1), MessageTyped::Service(v2)) => service_outcome(v1, s1, v2, s2),
        _ => EntityCmpResult::Conflict,
    }
}

/// Whether the kind-specific parts of messages can be compared: the contents of regular
/// messages can, and for service messages both chats are known.
pub open spec fn typed_comparable(a: MessageTyped, s1: EqSide, b: MessageTyped, s2: EqSide) -> bool {
    match (a, b) {
        (MessageTyped::Regular(r1), MessageTyped::Regular(r2)) => contents_comparable(r1.contents@, r2.contents@),
        (MessageTyped::Service(_), MessageTyped::Service(_)) => s1.cwd is Some && s2.cwd is Some,
        _ => true,
    }
}

/// Comparison of messages: time and author must be equal, the texts are compared element
/// by element and the kind-specific parts are compared; internal and source IDs and
/// searchable strings are ignored.
pub open spec fn message_outcome(a: Message, s1: EqSide, b: Message, s2: EqSide) -> EntityCmpResult {
    chain_result(seq![
        from_bool_spec(a.timestamp == b.timestamp && a.from_id == b.from_id),
        lists_outcome(a.text@.len(), b.text@.len(), rte_pairs(a.text@, b.text@)),
        typed_outcome(a.typed.unwrap(), s1, b.typed.unwrap(), s2),
    ])
}

/// Whether messages can be compared: both have their kind-specific parts, and these can be
/// compared.
pub open spec fn message_comparable(a: Message, s1: EqSide, b: Message, s2: EqSide) -> bool {
    &&& a.typed is Some
    &&& b.typed is Some
    &&& typed_comparable(a.typed.unwrap(), s1, b.typed.unwrap(), s2)
}

/// Compares lists of contents, see [`contents_outcome`].
pub fn compare_contents(a: &Vec<Content>, s1: &EqSide, b: &Vec<Content>, s2: &EqSide) -> (r: EntityCmpResult)
    requires
        contents_comparable(a@, b@),
    ensures
        r == contents_outcome(a@, *s1, b@, *s2),
{
    let f = |x: &Content, y: &Content| -> (c: EntityCmpResult)
        requires
            content_comparable(*x, *y),
        ensures
            c == content_outcome(*x, *s1, *y, *s2),
        { compare_content(x, s1, y, s2) };
    let r = compare_lists_res(a.as_slice(), b.as_slice(), f, Ghost(|x: Content, y: Content| content_outcome(x, *s1, y, *s2)));
    assert(pairwise(a@, b@, |x: Content, y: Content| content_outcome(x, *s1, y, *s2)) =~= content_pairs(a@, *s1, b@, *s2));
    r
}

/// Compares regular message parts, see [`regular_outcome`].
pub fn compare_regular(a: &MessageRegular, s1: &EqSide, b: &MessageRegular, s2: &EqSide) -> (r: EntityCmpResult)
    requires
        contents_comparable(a.contents@, b.contents@),
    ensures
        r == regular_outcome(*a, *s1, *b, *s2),
{
    chain2(EntityCmpResult::from_bool(a.is_deleted == b.is_deleted), compare_contents(&a.contents, s1, &b.contents, s2))
}

/// Compares service message payloads, see [`service_outcome`]; both chats must be known.
pub fn compare_service(a: &MessageService, s1: &EqSide, b: &MessageService, s2: &EqSide) -> (r: EntityCmpResult)
    requires
        s1.cwd is Some,
        s2.cwd is Some,
    ensures
        r == service_outcome(*a, *s1, *b, *s2),
{
    let cwd1 = s1.cwd.unwrap();
    let cwd2 = s2.cwd.unwrap();
    match (&a.sealed_value_optional, &b.sealed_value_optional) {
        (
            Some(MessageServiceValue::PhoneCall { duration_sec_option: d1, discard_reason_option: r1, members: m1 }),
            Some(MessageServiceValue::PhoneCall { duration_sec_option: d2, discard_reason_option: r2, members: m2 }),
        ) => EntityCmpResult::from_bool(
            opt_i32_eq(d1, d2) && opt_string_eq(r1, r2) && members_practically_equals(m1, cwd1, m2, cwd2),
        ),
        (Some(MessageServiceValue::SuggestProfilePhoto { photo: p1 }), Some(MessageServiceValue::SuggestProfilePhoto { photo: p2 })) =>
            compare_photos(p1, s1, p2, s2),
        (Some(MessageServiceValue::PinMessage { message_id: i1 }), Some(MessageServiceValue::PinMessage { message_id: i2 })) =>
            EntityCmpResult::from_bool(*i1 == *i2),
        (Some(MessageServiceValue::ClearHistory), Some(MessageServiceValue::ClearHistory)) => EntityCmpResult::Equal,
        (Some(MessageServiceValue::BlockUser { is_blocked: b1 }), Some(MessageServiceValue::BlockUser { is_blocked: b2 })) =>
            EntityCmpResult::from_bool(*b1 == *b2),
        (Some(MessageServiceValue::StatusTextChanged), Some(MessageServiceValue::StatusTextChanged)) => EntityCmpResult::Equal,
        (Some(MessageServiceValue::Notice), Some(MessageServiceValue::Notice)) => EntityCmpResult::Equal,
        (
            Some(MessageServiceValue::GroupCreate { title: t1, members: m1 }),
            Some(MessageServiceValue::GroupCreate { title: t2, members: m2 }),
        ) => EntityCmpResult::from_bool(t1.eq(t2) && members_practically_equals(m1, cwd1, m2, cwd2)),
        (Some(MessageServiceValue::GroupEditTitle { title: t1 }), Some(MessageServiceValue::GroupEditTitle { title: t2 })) =>
            EntityCmpResult::from_bool(t1.eq(t2)),
        (Some(MessageServiceValue::GroupEditPhoto { photo: p1 }), Some(MessageServiceValue::GroupEditPhoto { photo: p2 })) =>
            compare_photos(p1, s1, p2, s2),
        (Some(MessageServiceValue::GroupDeletePhoto), Some(MessageServiceValue::GroupDeletePhoto)) => EntityCmpResult::Equal,
        (Some(MessageServiceValue::GroupInviteMembers { members: m1 }), Some(MessageServiceValue::GroupInviteMembers { members: m2 })) =>
            EntityCmpResult::from_bool(members_practically_equals(m1, cwd1, m2, cwd2)),
        (Some(MessageServiceValue::GroupRemoveMembers { members: m1 }), Some(MessageServiceValue::GroupRemoveMembers { members: m2 })) =>
            EntityCmpResult::from_bool(members_practically_equals(m1, cwd1, m2, cwd2)),
        (Some(MessageServiceValue::GroupMigrateFrom { title: t1 }), Some(MessageServiceValue::GroupMigrateFrom { title: t2 })) =>
            EntityCmpResult::from_bool(t1.eq(t2)),
        (Some(MessageServiceValue::GroupMigrateTo), Some(MessageServiceValue::GroupMigrateTo)) => EntityCmpResult::Equal,
        _ => EntityCmpResult::Conflict,
    }
}

/// Compares the kind-specific parts of messages, see [`typed_outcome`].
pub fn compare_typed(a: &MessageTyped, s1: &EqSide, b: &MessageTyped, s2: &EqSide) -> (r: EntityCmpResult)
    requires
        typed_comparable(*a, *s1, *b, *s2),
    ensures
        r == typed_outcome(*a, *s1, *b, *s2),
{
    match (a, b) {
        (MessageTyped::Regular(r1), MessageTyped::Regular(r2)) => compare_regular(r1, s1, r2, s2),
        (MessageTyped::Service(v1), MessageTyped::Service(v2)) => compare_service(v1, s1, v2, s2),
        _ => EntityCmpResult::Conflict,
    }
}

/// Compares messages, see [`message_outcome`].
pub fn compare_messages(a: &Message, s1: &EqSide, b: &Message, s2: &EqSide) -> (r: EntityCmpResult)
    requires
        message_comparable(*a, *s1, *b, *s2),
    ensures
        r == message_outcome(*a, *s1, *b, *s2),
{
    let head = EntityCmpResult::from_bool(a.timestamp == b.timestamp && a.from_id == b.from_id);
    let f = |x: &RichTextElement, y: &RichTextElement| -> (c: EntityCmpResult)
        ensures
            c == rte_outcome(*x, *y),
        { compare_rtes(x, y) };
    let text = compare_lists_res(a.text.as_slice(), b.text.as_slice(), f, Ghost(|x: RichTextElement, y: RichTextElement| rte_outcome(x, y)));
    assert(pairwise(a.text@, b.text@, |x: RichTextElement, y: RichTextElement| rte_outcome(x, y)) =~= rte_pairs(a.text@, b.text@));
    let typed = compare_typed(a.typed(), s1, b.typed(), s2);
    chain3(head, text, typed)
}

//
// Users and chats
//

/// Comparison of users: everything but the profile pictures must be equal.
pub open spec fn user_outcome(a: User, b: User) -> EntityCmpResult {
    from_bool_spec(
        a.ds_uuid.value@ == b.ds_uuid.value@ && a.id == b.id && opt_chars(a.first_name_option) == opt_chars(b.first_name_option)
            && opt_chars(a.last_name_option) == opt_chars(b.last_name_option)
            && opt_chars(a.username_option) == opt_chars(b.username_option)
            && opt_chars(a.phone_number_option) == opt_chars(b.phone_number_option),
    )
}

/// Compares users, see [`user_outcome`]. Profile pictures are not looked at.
pub fn compare_users(a: &User, b: &User) -> (r: EntityCmpResult)
    ensures
        r == user_outcome(*a, *b),
{
    EntityCmpResult::from_bool(
        a.ds_uuid.value.eq(&b.ds_uuid.value) && a.id == b.id && opt_string_eq(&a.first_name_option, &b.first_name_option)
            && opt_string_eq(&a.last_name_option, &b.last_name_option)
            && opt_string_eq(&a.username_option, &b.username_option)
            && opt_string_eq(&a.phone_number_option, &b.phone_number_option),
    )
}

/// Comparison of chats: the plain fields must be equal, the members must be the same IDs
/// (in any order), and the images are compared by their files.
pub open spec fn chat_outcome(a: Chat, s1: EqSide, b: Chat, s2: EqSide) -> EntityCmpResult {
    chain_result(seq![
        from_bool_spec(a.ds_uuid.value@ == b.ds_uuid.value@ && a.id == b.id && opt_chars(a.name_option) == opt_chars(b.name_option)
            && a.source_type == b.source_type && a.tpe == b.tpe && a.msg_count == b.msg_count
            && a.main_chat_id == b.main_chat_id),
        from_bool_spec(same_values(a.member_ids@, b.member_ids@)),
        path_outcome(a.img_path_option, s1, b.img_path_option, s2),
    ])
}

/// Compares chats, see [`chat_outcome`].
pub fn compare_chats(a: &Chat, s1: &EqSide, b: &Chat, s2: &EqSide) -> (r: EntityCmpResult)
    ensures
        r == chat_outcome(*a, *s1, *b, *s2),
{
    let plain = EntityCmpResult::from_bool(
        a.ds_uuid.value.eq(&b.ds_uuid.value) && a.id == b.id && opt_string_eq(&a.name_option, &b.name_option)
            && a.source_type == b.source_type && a.tpe == b.tpe && a.msg_count == b.msg_count
            && opt_i64_eq(&a.main_chat_id, &b.main_chat_id),
    );
    let members = EntityCmpResult::from_bool(sets_are_equal(a.member_ids.as_slice(), b.member_ids.as_slice()));
    let img = compare_paths(&a.img_path_option, s1, &b.img_path_option, s2);
    chain3(plain, members, img)
}

//
// Comparison through a trait
//

/// An entity (or a part of one) together with what its comparison needs to know of its
/// side: the dataset root its paths are relative to, its chat (where members are resolved)
/// and the facts about the dataset's files.
pub struct EntityCmpTuple<'a, T> {
    pub v: &'a T,
    pub ds_root: &'a DatasetRoot,
    pub cwd: Option<&'a ChatWithDetails>,
    pub facts: &'a Facts,
}

impl<'a, T> EntityCmpTuple<'a, T> {
    /// What the comparison sees of this side.
    pub open spec fn side(&self) -> EqSide<'a> {
        EqSide { ds_root: self.ds_root, cwd: self.cwd, facts: self.facts }
    }

    pub fn new(v: &'a T, ds_root: &'a DatasetRoot, cwd: &'a ChatWithDetails, facts: &'a Facts) -> (r: Self)
        ensures
            r.v == v,
            r.ds_root == ds_root,
            r.cwd == Some(cwd),
            r.facts == facts,
    {
        EntityCmpTuple { v, ds_root, cwd: Some(cwd), facts }
    }

    pub fn new_without_cwd(v: &'a T, ds_root: &'a DatasetRoot, facts: &'a Facts) -> (r: Self)
        ensures
            r.v == v,
            r.ds_root == ds_root,
            r.cwd is None,
            r.facts == facts,
    {
        EntityCmpTuple { v, ds_root, cwd: None, facts }
    }

    /// Another value on the same side.
    pub fn with<U>(&self, u: &'a U) -> (r: EntityCmpTuple<'a, U>)
        ensures
            r.v == u,
            r.side() == self.side(),
    {
        EntityCmpTuple { v: u, ds_root: self.ds_root, cwd: self.cwd, facts: self.facts }
    }

    fn exec_side(&self) -> (r: EqSide<'a>)
        ensures
            r == self.side(),
    {
        EqSide { ds_root: self.ds_root, cwd: self.cwd, facts: self.facts }
    }
}

/// Practical comparison of two values on their sides.
pub trait EntityCmp: Sized {
    /// Whether the comparison with `other` is defined.
    spec fn comparable_with(&self, other: &Self) -> bool;

    /// Outcome of the comparison with `other`.
    spec fn outcome_with(&self, other: &Self) -> EntityCmpResult;

    fn compare(&self, other: &Self) -> (r: EntityCmpResult)
        requires
            self.comparable_with(other),
        ensures
            r == self.outcome_with(other),
    ;
}

impl<'a> EntityCmp for EntityCmpTuple<'a, User> {
    open spec fn comparable_with(&self, other: &Self) -> bool {
        true
    }

    open spec fn outcome_with(&self, other: &Self) -> EntityCmpResult {
        user_outcome(*self.v, *other.v)
    }

    /// Note that profile pictures are NOT compared.
    fn compare(&self, other: &Self) -> (r: EntityCmpResult) {
        compare_users(self.v, other.v)
    }
}

impl<'a> EntityCmp for EntityCmpTuple<'a, Chat> {
    open spec fn comparable_with(&self, other: &Self) -> bool {
        true
    }

    open spec fn outcome_with(&self, other: &Self) -> EntityCmpResult {
        chat_outcome(*self.v, self.side(), *other.v, other.side())
    }

    fn compare(&self, other: &Self) -> (r: EntityCmpResult) {
        compare_chats(self.v, &self.exec_side(), other.v, &other.exec_side())
    }
}

impl<'a> EntityCmp for EntityCmpTuple<'a, Message> {
    open spec fn comparable_with(&self, other: &Self) -> bool {
        message_comparable(*self.v, self.side(), *other.v, other.side())
    }

    open spec fn outcome_with(&self, other: &Self) -> EntityCmpResult {
        message_outcome(*self.v, self.side(), *other.v, other.side())
    }

    fn compare(&self, other: &Self) -> (r: EntityCmpResult) {
        compare_messages(self.v, &self.exec_side(), other.v, &other.exec_side())
    }
}

impl<'a> EntityCmp for EntityCmpTuple<'a, MessageTyped> {
    open spec fn comparable_with(&self, other: &Self) -> bool {
        typed_comparable(*self.v, self.side(), *other.v, other.side())
    }

    open spec fn outcome_with(&self, other: &Self) -> EntityCmpResult {
        typed_outcome(*self.v, self.side(), *other.v, other.side())
    }

    fn compare(&self, other: &Self) -> (r: EntityCmpResult) {
        compare_typed(self.v, &self.exec_side(), other.v, &other.exec_side())
    }
}

impl<'a> EntityCmp for EntityCmpTuple<'a, MessageRegular> {
    open spec fn comparable_with(&self, other: &Self) -> bool {
        contents_comparable(self.v.contents@, other.v.contents@)
    }

    open spec fn outcome_with(&self, other: &Self) -> EntityCmpResult {
        regular_outcome(*self.v, self.side(), *other.v, other.side())
    }

    fn compare(&self, other: &Self) -> (r: EntityCmpResult) {
        compare_regular(self.v, &self.exec_side(), other.v, &other.exec_side())
    }
}

impl<'a> EntityCmp for EntityCmpTuple<'a, MessageService> {
    open spec fn comparable_with(&self, other: &Self) -> bool {
        self.cwd is Some && other.cwd is Some
    }

    open spec fn outcome_with(&self, other: &Self) -> EntityCmpResult {
        service_outcome(*self.v, self.side(), *other.v, other.side())
    }

    fn compare(&self, other: &Self) -> (r: EntityCmpResult) {
        compare_service(self.v, &self.exec_side(), other.v, &other.exec_side())
    }
}

impl<'a> EntityCmp for EntityCmpTuple<'a, RichTextElement> {
    open spec fn comparable_with(&self, other: &Self) -> bool {
        true
    }

    open spec fn outcome_with(&self, other: &Self) -> EntityCmpResult {
        rte_outcome(*self.v, *other.v)
    }

    fn compare(&self, other: &Self) -> (r: EntityCmpResult) {
        compare_rtes(self.v, other.v)
    }
}

impl<'a> EntityCmp for EntityCmpTuple<'a, Content> {
    open spec fn comparable_with(&self, other: &Self) -> bool {
        content_comparable(*self.v, *other.v)
    }

    open spec fn outcome_with(&self, other: &Self) -> EntityCmpResult {
        content_outcome(*self.v, self.side(), *other.v, other.side())
    }

    fn compare(&self, other: &Self) -> (r: EntityCmpResult) {
        compare_content(self.v, &self.exec_side(), other.v, &other.exec_side())
    }
}

impl<'a> EntityCmp for EntityCmpTuple<'a, ContentPhoto> {
    open spec fn comparable_with(&self, other: &Self) -> bool {
        true
    }

    open spec fn outcome_with(&self, other: &Self) -> EntityCmpResult {
        photo_outcome(*self.v, self.side(), *other.v, other.side())
    }

    fn compare(&self, other: &Self) -> (r: EntityCmpResult) {
        compare_photos(self.v, &self.exec_side(), other.v, &other.exec_side())
    }
}

/// Since equality of paths is equality of the files they name, two missing paths are equal.
impl<'a> EntityCmp for EntityCmpTuple<'a, Option<String>> {
    open spec fn comparable_with(&self, other: &Self) -> bool {
        true
    }

    open spec fn outcome_with(&self, other: &Self) -> EntityCmpResult {
        path_outcome(*self.v, self.side(), *other.v, other.side())
    }

    fn compare(&self, other: &Self) -> (r: EntityCmpResult) {
        compare_paths(self.v, &self.exec_side(), other.v, &other.exec_side())
    }
}

//
// Laws
//

proof fn lemma_chain_all_equal(s: Seq<EntityCmpResult>)
    requires
        forall|i: int| 0 <= i < s.len() ==> s[i] == EntityCmpResult::Equal,
    ensures
        chain_result(s) == EntityCmpResult::Equal,
{
    assert(!s.contains(EntityCmpResult::Conflict));
    assert(!s.contains(EntityCmpResult::LeftHasMore));
    assert(!s.contains(EntityCmpResult::RightHasMore));
}

proof fn lemma_with_paths_reflexive(paths: Seq<EntityCmpResult>)
    requires
        forall|i: int| 0 <= i < paths.len() ==> paths[i] == EntityCmpResult::Equal,
    ensures
        with_paths(paths, true) == EntityCmpResult::Equal,
{
    lemma_chain_all_equal(paths);
}

proof fn lemma_content_reflexive(c: Content, s: EqSide)
    requires
        c.sealed_value_optional is Some,
        content_comparable(c, c),
    ensures
        content_outcome(c, s, c, s) == EntityCmpResult::Equal,
{
    match c.sealed_value_optional {
        Some(v) => match v {
            ContentValue::Sticker { path_option, thumbnail_path_option, .. } => {
                lemma_with_paths_reflexive(seq![path_outcome(path_option, s, path_option, s),
                    path_outcome(thumbnail_path_option, s, thumbnail_path_option, s)]);
            },
            ContentValue::Photo(p) => {
                lemma_with_paths_reflexive(seq![path_outcome(p.path_option, s, p.path_option, s)]);
            },
            ContentValue::VoiceMsg { path_option, .. } => {
                lemma_with_paths_reflexive(seq![path_outcome(path_option, s, path_option, s)]);
            },
            ContentValue::Audio { path_option, .. } => {
                lemma_with_paths_reflexive(seq![path_outcome(path_option, s, path_option, s)]);
            },
            ContentValue::VideoMsg { path_option, thumbnail_path_option, .. } => {
                lemma_with_paths_reflexive(seq![path_outcome(path_option, s, path_option, s),
                    path_outcome(thumbnail_path_option, s, thumbnail_path_option, s)]);
            },
            ContentValue::Video { path_option, thumbnail_path_option, .. } => {
                lemma_with_paths_reflexive(seq![path_outcome(path_option, s, path_option, s),
                    path_outcome(thumbnail_path_option, s, thumbnail_path_option, s)]);
            },
            ContentValue::File { path_option, thumbnail_path_option, .. } => {
                lemma_with_paths_reflexive(seq![path_outcome(path_option, s, path_option, s),
                    path_outcome(thumbnail_path_option, s, thumbnail_path_option, s)]);
            },
            ContentValue::Location { lat_str, lon_str, .. } => {
                lemma_chain_all_equal(seq![coordinate_outcome(lat_str@, lat_str@), coordinate_outcome(lon_str@, lon_str@),
                    EntityCmpResult::Equal]);
            },
            ContentValue::Poll { .. } => {},
            ContentValue::SharedContact { vcard_path_option, .. } => {
                lemma_with_paths_reflexive(seq![path_outcome(vcard_path_option, s, vcard_path_option, s)]);
            },
            ContentValue::TodoList { items, .. } => {
                let pw = string_pairs(items@, items@);
                lemma_chain_all_equal(pw);
                lemma_chain_all_equal(seq![EntityCmpResult::Equal, todo_items_outcome(items@, items@)]);
            },
        },
        None => {},
    }
}

proof fn lemma_rte_reflexive(r: RichTextElement)
    ensures
        rte_outcome(r, r) == EntityCmpResult::Equal,
{
    match comparable_val_of(r) {
        _ => {},
    }
}

spec fn comparable_val_of(r: RichTextElement) -> Option<crate::model::RteVal> {
    crate::equality::comparable_val(r.val)
}

/// Comparing a well-formed message with itself (on the same side) finds them equal.
pub proof fn law_message_compares_equal_to_itself(m: Message, s: EqSide)
    requires
        message_well_formed(m),
        message_comparable(m, s, m, s),
    ensures
        message_outcome(m, s, m, s) == EntityCmpResult::Equal,
{
    let text = rte_pairs(m.text@, m.text@);
    assert forall|i: int| 0 <= i < text.len() implies text[i] == EntityCmpResult::Equal by {
        lemma_rte_reflexive(m.text@[i]);
    }
    lemma_chain_all_equal(text);
    match m.typed.unwrap() {
        MessageTyped::Regular(r) => {
            let cs = content_pairs(r.contents@, s, r.contents@, s);
            assert forall|i: int| 0 <= i < cs.len() implies cs[i] == EntityCmpResult::Equal by {
                lemma_content_reflexive(r.contents@[i], s);
            }
            lemma_chain_all_equal(cs);
            lemma_chain_all_equal(seq![EntityCmpResult::Equal, contents_outcome(r.contents@, s, r.contents@, s)]);
        },
        MessageTyped::Service(v) => {
            match v.sealed_value_optional {
                Some(MessageServiceValue::SuggestProfilePhoto { photo }) => {
                    lemma_with_paths_reflexive(seq![path_outcome(photo.path_option, s, photo.path_option, s)]);
                },
                Some(MessageServiceValue::GroupEditPhoto { photo }) => {
                    lemma_with_paths_reflexive(seq![path_outcome(photo.path_option, s, photo.path_option, s)]);
                },
                _ => {},
            }
        },
    }
    lemma_chain_all_equal(seq![EntityCmpResult::Equal, lists_outcome(m.text@.len(), m.text@.len(), text),
        typed_outcome(m.typed.unwrap(), s, m.typed.unwrap(), s)]);
}

/// Comparing a chat with itself (on the same side) finds them equal.
pub proof fn law_chat_compares_equal_to_itself(c: Chat, s: EqSide)
    ensures
        chat_outcome(c, s, c, s) == EntityCmpResult::Equal,
{
    assert forall|i: int| 0 <= i < c.member_ids@.len() implies c.member_ids@.contains(#[trigger] c.member_ids@[i]) by {}
    lemma_chain_all_equal(seq![EntityCmpResult::Equal, EntityCmpResult::Equal, path_outcome(c.img_path_option, s, c.img_path_option, s)]);
}

/// Comparing a user with itself finds them equal.
pub proof fn law_user_compares_equal_to_itself(u: User)
    ensures
        user_outcome(u, u) == EntityCmpResult::Equal,
{
}

/// A coordinate's text compared with itself is equal.
pub proof fn law_coordinate_compares_equal_to_itself(v: Seq<char>)
    ensures
        coordinate_outcome(v, v) == EntityCmpResult::Equal,
{
}

proof fn lemma_encode_push_zero(s: Seq<char>)
    ensures
        encode_utf8(s.push('0')) == encode_utf8(s).push(0x30u8),
    decreases s.len(),
{
    if s.len() == 0 {
        assert(s.push('0') =~= seq!['0']);
        assert(seq!['0'].drop_first() =~= Seq::<char>::empty());
        assert(('0' as u32) == 0x30u32);
        assert((0x30u32 & 0x7Fu32) as u8 == 0x30u8) by (bit_vector);
        assert(seq!['0'][0] == '0');
        assert(vstd::utf8::leading_byte_width_1(0x30u32) == 0x30u8);
        assert(vstd::utf8::encode_scalar(0x30u32) =~= seq![0x30u8]);
        assert(encode_utf8(Seq::<char>::empty()) =~= Seq::<u8>::empty());
        assert(encode_utf8(seq!['0']) == vstd::utf8::encode_scalar(seq!['0'][0] as u32) + encode_utf8(seq!['0'].drop_first()));
        assert(encode_utf8(seq!['0']) =~= seq![0x30u8]);
    } else {
        assert(s.push('0').drop_first() =~= s.drop_first().push('0'));
        lemma_encode_push_zero(s.drop_first());
        assert(encode_utf8(s.push('0')) =~= encode_utf8(s).push(0x30u8));
    }
}

/// Trailing zeros play no part in comparing coordinates: a coordinate's text with a zero
/// appended compares with any other as the text itself does.
pub proof fn law_coordinate_trailing_zero_ignored(v: Seq<char>, w: Seq<char>)
    ensures
        coordinate_outcome(v.push('0'), w) == coordinate_outcome(v, w),
        coordinate_outcome(w, v.push('0')) == coordinate_outcome(w, v),
{
    lemma_encode_push_zero(v);
    assert(encode_utf8(v).push(0x30u8).drop_last() =~= encode_utf8(v));
    assert(coordinate_digits(v.push('0')) == coordinate_digits(v));
}

/// A longer coordinate is the more precise one: where the significant part of one
/// coordinate's text starts with the whole (non-empty) significant part of another and goes
/// on, it has more.
pub proof fn law_longer_coordinate_has_more(v1: Seq<char>, v2: Seq<char>)
    requires
        0 < coordinate_digits(v2).len() < coordinate_digits(v1).len(),
        coordinate_digits(v1).subrange(0, coordinate_digits(v2).len() as int) == coordinate_digits(v2),
    ensures
        coordinate_outcome(v1, v2) == EntityCmpResult::LeftHasMore,
        coordinate_outcome(v2, v1) == EntityCmpResult::RightHasMore,
{
    let a = coordinate_digits(v1);
    let b = coordinate_digits(v2);
    let start: int = 0;
    assert(a.drop_last().subrange(start, start + b.drop_last().len()) =~= b.drop_last());
    assert(bytes_contain(a.drop_last(), b.drop_last()));
    if bytes_contain(b.drop_last(), a.drop_last()) {
        let i = choose|i: int| 0 <= i <= b.drop_last().len() - a.drop_last().len()
            && #[trigger] b.drop_last().subrange(i, i + a.drop_last().len()) == a.drop_last();
        assert(false);
    }
}

/// Internal and source IDs, searchable strings, edit times, forwarded-from names and reply
/// targets play no part in the comparison of regular messages.
pub proof fn law_comparison_ignores_ids_and_edits(
    a: Message,
    s1: EqSide,
    b: Message,
    s2: EqSide,
    internal_id: i64,
    source_id_option: Option<i64>,
    searchable_string: String,
    edit_timestamp_option: Option<i64>,
    forward_from_name_option: Option<String>,
    reply_to_message_id_option: Option<i64>,
)
    requires
        a.typed matches Some(MessageTyped::Regular(_)),
    ensures
        ({
            let r = a.typed.unwrap()->Regular_0;
            let a2 = Message {
                internal_id,
                source_id_option,
                searchable_string,
                typed: Some(MessageTyped::Regular(MessageRegular {
                    edit_timestamp_option,
                    forward_from_name_option,
                    reply_to_message_id_option,
                    ..r
                })),
                ..a
            };
            message_outcome(a2, s1, b, s2) == message_outcome(a, s1, b, s2)
        }),
{
}

/// Two polls are equal exactly when they ask the same question, and conflict otherwise; one
/// never has more than the other.
pub proof fn law_polls_compare_by_question(q1: String, s1: EqSide, q2: String, s2: EqSide)
    ensures
        content_value_outcome(ContentValue::Poll { question: q1 }, s1, ContentValue::Poll { question: q2 }, s2)
            == EntityCmpResult::Equal <==> q1@ == q2@,
        content_value_outcome(ContentValue::Poll { question: q1 }, s1, ContentValue::Poll { question: q2 }, s2)
            == EntityCmpResult::Conflict <==> q1@ != q2@,
{
}

proof fn lemma_chain_equal(s: Seq<EntityCmpResult>, i: int)
    requires
        chain_result(s) == EntityCmpResult::Equal,
        0 <= i < s.len(),
    ensures
        s[i] == EntityCmpResult::Equal,
{
    assert(s.contains(s[i]));
}

/// Contents found equal are of the same kind and agree on everything but their files (and
/// file names, and coordinates, which are compared by their digits): sizes, types, durations,
/// titles, performers, captions, addresses, questions, names and phone numbers.
pub proof fn law_equal_contents_agree(a: ContentValue, s1: EqSide, b: ContentValue, s2: EqSide)
    requires
        content_value_outcome(a, s1, b, s2) == EntityCmpResult::Equal,
    ensures
        match (a, b) {
            (
                ContentValue::Sticker { width: w1, height: h1, mime_type_option: m1, emoji_option: e1, .. },
                ContentValue::Sticker { width: w2, height: h2, mime_type_option: m2, emoji_option: e2, .. },
            ) => w1 == w2 && h1 == h2 && opt_chars(m1) == opt_chars(m2) && opt_chars(e1) == opt_chars(e2),
            (ContentValue::Photo(_), ContentValue::Photo(_)) => true,
            (
                ContentValue::VoiceMsg { mime_type: m1, duration_sec_option: d1, .. },
                ContentValue::VoiceMsg { mime_type: m2, duration_sec_option: d2, .. },
            ) => m1@ == m2@ && d1 == d2,
            (
                ContentValue::Audio { title_option: ti1, performer_option: pe1, mime_type: m1, duration_sec_option: d1, .. },
                ContentValue::Audio { title_option: ti2, performer_option: pe2, mime_type: m2, duration_sec_option: d2, .. },
            ) => opt_chars(ti1) == opt_chars(ti2) && opt_chars(pe1) == opt_chars(pe2) && m1@ == m2@ && d1 == d2,
            (
                ContentValue::VideoMsg { width: w1, height: h1, mime_type: m1, duration_sec_option: d1, is_one_time: o1, .. },
                ContentValue::VideoMsg { width: w2, height: h2, mime_type: m2, duration_sec_option: d2, is_one_time: o2, .. },
            ) => w1 == w2 && h1 == h2 && m1@ == m2@ && d1 == d2 && o1 == o2,
            (
                ContentValue::Video { title_option: ti1, performer_option: pe1, width: w1, height: h1, mime_type: m1, duration_sec_option: d1, is_one_time: o1, .. },
                ContentValue::Video { title_option: ti2, performer_option: pe2, width: w2, height: h2, mime_type: m2, duration_sec_option: d2, is_one_time: o2, .. },
            ) => opt_chars(ti1) == opt_chars(ti2) && opt_chars(pe1) == opt_chars(pe2) && w1 == w2 && h1 == h2
                && m1@ == m2@ && d1 == d2 && o1 == o2,
            (
                ContentValue::File { mime_type_option: m1, .. },
                ContentValue::File { mime_type_option: m2, .. },
            ) => opt_chars(m1) == opt_chars(m2),
            (
                ContentValue::Location { title_option: ti1, address_option: a1, duration_sec_option: d1, .. },
                ContentValue::Location { title_option: ti2, address_option: a2, duration_sec_option: d2, .. },
            ) => opt_chars(ti1) == opt_chars(ti2) && opt_chars(a1) == opt_chars(a2) && d1 == d2,
            (ContentValue::Poll { question: q1 }, ContentValue::Poll { question: q2 }) => q1@ == q2@,
            (
                ContentValue::SharedContact { first_name_option: f1, last_name_option: l1, phone_number_option: ph1, .. },
                ContentValue::SharedContact { first_name_option: f2, last_name_option: l2, phone_number_option: ph2, .. },
            ) => opt_chars(f1) == opt_chars(f2) && opt_chars(l1) == opt_chars(l2) && opt_chars(ph1) == opt_chars(ph2),
            (ContentValue::TodoList { title_option: t1, .. }, ContentValue::TodoList { title_option: t2, .. }) =>
                opt_chars(t1) == opt_chars(t2),
            _ => false,
        },
{
    match (a, b) {
        (
            ContentValue::Location { title_option: ti1, address_option: a1, lat_str: la1, lon_str: lo1, duration_sec_option: d1 },
            ContentValue::Location { title_option: ti2, address_option: a2, lat_str: la2, lon_str: lo2, duration_sec_option: d2 },
        ) => {
            let s = seq![
                coordinate_outcome(la1@, la2@),
                coordinate_outcome(lo1@, lo2@),
                from_bool_spec(opt_chars(ti1) == opt_chars(ti2) && opt_chars(a1) == opt_chars(a2) && d1 == d2),
            ];
            lemma_chain_equal(s, 2);
        },
        (ContentValue::TodoList { title_option: ti1, items: i1 }, ContentValue::TodoList { title_option: ti2, items: i2 }) => {
            let s = seq![from_bool_spec(opt_chars(ti1) == opt_chars(ti2)), todo_items_outcome(i1@, i2@)];
            lemma_chain_equal(s, 0);
        },
        _ => {},
    }
}

/// Comparing two coordinates the other way round gives the mirror result: the side that has
/// more swaps, equality and conflict stay.
pub proof fn law_coordinate_comparison_is_mirrored(v1: Seq<char>, v2: Seq<char>)
    ensures
        coordinate_outcome(v2, v1) == match coordinate_outcome(v1, v2) {
            EntityCmpResult::LeftHasMore => EntityCmpResult::RightHasMore,
            EntityCmpResult::RightHasMore => EntityCmpResult::LeftHasMore,
            other => other,
        },
{
    let a = coordinate_digits(v1);
    let b = coordinate_digits(v2);
    if a.len() > 0 && b.len() > 0 && a.len() != b.len() {
        if bytes_contain(a.drop_last(), b.drop_last()) && bytes_contain(b.drop_last(), a.drop_last()) {
            let i = choose|i: int| 0 <= i <= a.drop_last().len() - b.drop_last().len()
                && #[trigger] a.drop_last().subrange(i, i + b.drop_last().len()) == b.drop_last();
            let j = choose|j: int| 0 <= j <= b.drop_last().len() - a.drop_last().len()
                && #[trigger] b.drop_last().subrange(j, j + a.drop_last().len()) == a.drop_last();
            assert(false);
        }
    }
}

/// The same outcome seen from the other side: which side has more swaps.
pub open spec fn mirrored(r: EntityCmpResult) -> EntityCmpResult {
    match r {
        EntityCmpResult::LeftHasMore => EntityCmpResult::RightHasMore,
        EntityCmpResult::RightHasMore => EntityCmpResult::LeftHasMore,
        other => other,
    }
}

proof fn lemma_contains_mirrored(s: Seq<EntityCmpResult>, t: Seq<EntityCmpResult>, x: EntityCmpResult)
    requires
        s.len() == t.len(),
        forall|i: int| 0 <= i < s.len() ==> #[trigger] t[i] == mirrored(s[i]),
    ensures
        s.contains(x) <==> t.contains(mirrored(x)),
{
    if s.contains(x) {
        let i = choose|i: int| 0 <= i < s.len() && s[i] == x;
        assert(t[i] == mirrored(x));
    }
    if t.contains(mirrored(x)) {
        let i = choose|i: int| 0 <= i < t.len() && t[i] == mirrored(x);
        assert(t[i] == mirrored(s[i]));
        assert(s[i] == x);
    }
}

proof fn lemma_chain_mirrored(s: Seq<EntityCmpResult>, t: Seq<EntityCmpResult>)
    requires
        s.len() == t.len(),
        forall|i: int| 0 <= i < s.len() ==> #[trigger] t[i] == mirrored(s[i]),
    ensures
        chain_result(t) == mirrored(chain_result(s)),
{
    lemma_contains_mirrored(s, t, EntityCmpResult::Conflict);
    lemma_contains_mirrored(s, t, EntityCmpResult::LeftHasMore);
    lemma_contains_mirrored(s, t, EntityCmpResult::RightHasMore);
}

proof fn lemma_with_paths_mirrored(s: Seq<EntityCmpResult>, t: Seq<EntityCmpResult>, rest: bool)
    requires
        s.len() == t.len(),
        forall|i: int| 0 <= i < s.len() ==> #[trigger] t[i] == mirrored(s[i]),
    ensures
        with_paths(t, rest) == mirrored(with_paths(s, rest)),
{
    lemma_chain_mirrored(s, t);
}

proof fn lemma_path_outcome_mirrored(p1: Option<String>, s1: EqSide, p2: Option<String>, s2: EqSide)
    ensures
        path_outcome(p2, s2, p1, s1) == mirrored(path_outcome(p1, s1, p2, s2)),
{
}

/// Comparing two contents the other way round gives the mirror result: the side that has
/// more swaps, equality and conflict stay.
#[verifier::rlimit(30)]
pub proof fn law_content_comparison_is_mirrored(a: ContentValue, s1: EqSide, b: ContentValue, s2: EqSide)
    ensures
        content_value_outcome(b, s2, a, s1) == mirrored(content_value_outcome(a, s1, b, s2)),
{
    match (a, b) {
        (ContentValue::Sticker { path_option: p1, thumbnail_path_option: t1, .. }, ContentValue::Sticker { path_option: p2, thumbnail_path_option: t2, .. }) |
        (ContentValue::VideoMsg { path_option: p1, thumbnail_path_option: t1, .. }, ContentValue::VideoMsg { path_option: p2, thumbnail_path_option: t2, .. }) |
        (ContentValue::Video { path_option: p1, thumbnail_path_option: t1, .. }, ContentValue::Video { path_option: p2, thumbnail_path_option: t2, .. }) |
        (ContentValue::File { path_option: p1, thumbnail_path_option: t1, .. }, ContentValue::File { path_option: p2, thumbnail_path_option: t2, .. }) => {
            let s = seq![path_outcome(p1, s1, p2, s2), path_outcome(t1, s1, t2, s2)];
            let t = seq![path_outcome(p2, s2, p1, s1), path_outcome(t2, s2, t1, s1)];
            lemma_path_outcome_mirrored(p1, s1, p2, s2);
            lemma_path_outcome_mirrored(t1, s1, t2, s2);
            assert forall|i: int| 0 <= i < s.len() implies #[trigger] t[i] == mirrored(s[i]) by {}
            lemma_chain_mirrored(s, t);
        },
        (ContentValue::Photo(x), ContentValue::Photo(y)) => {
            let s = seq![path_outcome(x.path_option, s1, y.path_option, s2)];
            let t = seq![path_outcome(y.path_option, s2, x.path_option, s1)];
            lemma_path_outcome_mirrored(x.path_option, s1, y.path_option, s2);
            assert forall|i: int| 0 <= i < s.len() implies #[trigger] t[i] == mirrored(s[i]) by {}
            lemma_chain_mirrored(s, t);
        },
        (ContentValue::VoiceMsg { path_option: p1, .. }, ContentValue::VoiceMsg { path_option: p2, .. }) |
        (ContentValue::Audio { path_option: p1, .. }, ContentValue::Audio { path_option: p2, .. }) |
        (ContentValue::SharedContact { vcard_path_option: p1, .. }, ContentValue::SharedContact { vcard_path_option: p2, .. }) => {
            let s = seq![path_outcome(p1, s1, p2, s2)];
            let t = seq![path_outcome(p2, s2, p1, s1)];
            lemma_path_outcome_mirrored(p1, s1, p2, s2);
            assert forall|i: int| 0 <= i < s.len() implies #[trigger] t[i] == mirrored(s[i]) by {}
            lemma_chain_mirrored(s, t);
        },
        (
            ContentValue::Location { title_option: ti1, address_option: a1, lat_str: la1, lon_str: lo1, duration_sec_option: d1 },
            ContentValue::Location { title_option: ti2, address_option: a2, lat_str: la2, lon_str: lo2, duration_sec_option: d2 },
        ) => {
            law_coordinate_comparison_is_mirrored(la1@, la2@);
            law_coordinate_comparison_is_mirrored(lo1@, lo2@);
            let s = seq![
                coordinate_outcome(la1@, la2@),
                coordinate_outcome(lo1@, lo2@),
                from_bool_spec(opt_chars(ti1) == opt_chars(ti2) && opt_chars(a1) == opt_chars(a2) && d1 == d2),
            ];
            let t = seq![
                coordinate_outcome(la2@, la1@),
                coordinate_outcome(lo2@, lo1@),
                from_bool_spec(opt_chars(ti2) == opt_chars(ti1) && opt_chars(a2) == opt_chars(a1) && d2 == d1),
            ];
            assert forall|i: int| 0 <= i < s.len() implies #[trigger] t[i] == mirrored(s[i]) by {}
            lemma_chain_mirrored(s, t);
        },
        (ContentValue::TodoList { title_option: ti1, items: i1 }, ContentValue::TodoList { title_option: ti2, items: i2 }) => {
            let ps = string_pairs(i1@, i2@);
            let qs = string_pairs(i2@, i1@);
            if i1@.len() == i2@.len() {
                assert forall|i: int| 0 <= i < ps.len() implies #[trigger] qs[i] == mirrored(ps[i]) by {}
                lemma_chain_mirrored(ps, qs);
            }
            let s = seq![from_bool_spec(opt_chars(ti1) == opt_chars(ti2)), todo_items_outcome(i1@, i2@)];
            let t = seq![from_bool_spec(opt_chars(ti2) == opt_chars(ti1)), todo_items_outcome(i2@, i1@)];
            assert forall|i: int| 0 <= i < s.len() implies #[trigger] t[i] == mirrored(s[i]) by {}
            lemma_chain_mirrored(s, t);
        },
        _ => {},
    }
}

} // verus!
