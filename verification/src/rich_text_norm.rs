//! Normalization of loaded rich text: consecutive plain elements are joined, and the text is
//! trimmed of whitespace at both ends.
use vstd::prelude::*;
use crate::model::{RichTextElement, RteVal};
use crate::rich_text::{RichText, normalized_searchable, rte_text};
use crate::ext::concat_all;
use crate::whitespace::{is_white_space, char_is_white_space, chars_of, str_trim_start, str_trim_end,
    trim_start_ws, trim_end_ws, trimmed, leading_ws, trailing_ws, lemma_leading_ws_white, lemma_trailing_ws_white};

verus! {

//
// Joining plain elements
//

/// Whether an element is plain text.
pub open spec fn is_plain(r: RichTextElement) -> bool {
    r.val matches Some(RteVal::Plain { .. })
}

/// Text of a plain element.
pub open spec fn plain_text(r: RichTextElement) -> Seq<char> {
    match r.val {
        Some(RteVal::Plain { text }) => text@,
        _ => Seq::empty(),
    }
}

/// Texts of the elements `a` (inclusive) to `b` (exclusive), concatenated.
pub open spec fn plain_concat(s: Seq<RichTextElement>, a: int, b: int) -> Seq<char>
    decreases b - a,
{
    if b <= a {
        Seq::empty()
    } else {
        plain_concat(s, a, b - 1) + plain_text(s[b - 1])
    }
}

/// The runs the elements fall into, as `[start, end)` positions: each maximal run of
/// consecutive plain elements is one run, every other element a run of its own.
pub open spec fn plain_runs(s: Seq<RichTextElement>) -> Seq<(int, int)>
    decreases s.len(),
{
    if s.len() == 0 {
        Seq::empty()
    } else {
        let prev = plain_runs(s.drop_last());
        let i = s.len() - 1;
        if is_plain(s[i]) && prev.len() > 0 && is_plain(s[prev.last().0]) {
            prev.drop_last().push((prev.last().0, i + 1))
        } else {
            prev.push((i, i + 1))
        }
    }
}

/// Whether `out` is the element a run turns into: a single element stays as it is, a run of
/// several plain elements becomes one plain element with their texts joined.
pub open spec fn run_element(s: Seq<RichTextElement>, run: (int, int), out: RichTextElement) -> bool {
    if run.1 - run.0 == 1 {
        out == s[run.0]
    } else {
        &&& is_plain(out)
        &&& plain_text(out) == plain_concat(s, run.0, run.1)
        &&& out.searchable_string@ == normalized_searchable(plain_text(out))
    }
}

/// Whether `out` is `s` with each run of consecutive plain elements joined into one.
pub open spec fn plains_joined(s: Seq<RichTextElement>, out: Seq<RichTextElement>) -> bool {
    let runs = plain_runs(s);
    &&& out.len() == runs.len()
    &&& forall|k: int| 0 <= k < runs.len() ==> run_element(s, runs[k], #[trigger] out[k])
}

proof fn lemma_runs_shape(s: Seq<RichTextElement>)
    ensures
        forall|k: int| 0 <= k < plain_runs(s).len() ==> {
            let run = #[trigger] plain_runs(s)[k];
            &&& 0 <= run.0 < run.1 <= s.len()
            &&& (run.1 - run.0 > 1 ==> forall|x: int| run.0 <= x < run.1 ==> is_plain(s[x]))
        },
        plain_runs(s).len() > 0 ==> plain_runs(s).last().1 == s.len(),
        s.len() > 0 ==> plain_runs(s).len() > 0,
    decreases s.len(),
{
    if s.len() > 0 {
        lemma_runs_shape(s.drop_last());
        let prev = plain_runs(s.drop_last());
        let runs = plain_runs(s);
        assert forall|k: int| 0 <= k < runs.len() implies {
            let run = #[trigger] runs[k];
            &&& 0 <= run.0 < run.1 <= s.len()
            &&& (run.1 - run.0 > 1 ==> forall|x: int| run.0 <= x < run.1 ==> is_plain(s[x]))
        } by {
            if k < prev.len() && !(k == prev.len() - 1 && runs.len() == prev.len()) {
                assert(runs[k] == prev[k]);
                let run = prev[k];
                assert forall|x: int| run.0 <= x < run.1 implies s[x] == s.drop_last()[x] by {}
            } else if runs.len() == prev.len() {
                let run0 = prev.last();
                assert forall|x: int| run0.0 <= x < s.len() implies is_plain(s[x]) by {
                    if x < s.len() - 1 {
                        if run0.1 - run0.0 > 1 {
                            assert(is_plain(s.drop_last()[x]));
                        } else {
                            assert(x == run0.0);
                            assert(s.drop_last()[x] == s[x]);
                        }
                    }
                }
            }
        }
    }
}

/// Joins each run of consecutive plain elements into one plain element.
pub fn join_plain_runs(rtes: Vec<RichTextElement>) -> (r: Vec<RichTextElement>)
    ensures
        plains_joined(rtes@, r@),
{
    let ghost s = rtes@;
    let n = rtes.len();
    let mut out: Vec<RichTextElement> = Vec::new();
    let mut i: usize = 0;
    proof {
        assert(s.take(0) =~= Seq::<RichTextElement>::empty());
    }
    for x in it: rtes.into_iter()
        invariant
            i == it.index(),
            it.seq() == s,
            n == s.len(),
            plains_joined(s.take(i as int), out@),
    {
        proof {
            assert(s.take(i + 1).drop_last() =~= s.take(i as int));
            assert(x == s[i as int]);
            lemma_runs_shape(s.take(i as int));
            lemma_runs_shape(s.take(i + 1));
        }
        let ghost t = s.take(i + 1);
        let ghost prev_runs = plain_runs(s.take(i as int));
        let x_plain = match &x.val {
            Some(RteVal::Plain { .. }) => true,
            _ => false,
        };
        let last_plain = out.len() > 0 && match &out[out.len() - 1].val {
            Some(RteVal::Plain { .. }) => true,
            _ => false,
        };
        if x_plain && last_plain {
            let ghost out_before = out@;
            let last = out.pop().unwrap();
            let mut text = match last.val {
                Some(RteVal::Plain { text }) => text,
                _ => String::new(),
            };
            let more = match x.val {
                Some(RteVal::Plain { text }) => text,
                _ => String::new(),
            };
            text.append(more.as_str());
            let joined = RichText::make_plain(text);
            out.push(joined);
            proof {
                let run = prev_runs.last();
                assert(is_plain(s.take(i as int)[run.0])) by {
                    if run.1 - run.0 == 1 {
                        assert(out@.len() > 0);
                    }
                }
                assert(plain_runs(t) == prev_runs.drop_last().push((run.0, i + 1)));
                assert forall|x2: int| run.0 <= x2 < i + 1 implies t[x2] == s[x2] by {}
                assert(plain_concat(t, run.0, i + 1) == plain_concat(t, run.0, i as int) + plain_text(t[i as int]));
                assert forall|b: int| run.0 <= b <= i implies plain_concat(t, run.0, b) == plain_concat(s.take(i as int), run.0, b) by {
                    lemma_concat_prefix(t, s.take(i as int), run.0, b);
                }
                assert(run_element(s.take(i as int), run, out_before[prev_runs.len() - 1]));
                assert(plain_text(last) == plain_concat(s.take(i as int), run.0, i as int)) by {
                    if run.1 - run.0 == 1 {
                        assert(plain_concat(s.take(i as int), run.0, run.0) =~= Seq::<char>::empty());
                        assert(plain_concat(s.take(i as int), run.0, run.0 + 1) =~= plain_text(s.take(i as int)[run.0]));
                    }
                }
                assert(plain_text(joined) == plain_concat(t, run.0, i + 1));
                assert forall|k: int| 0 <= k < plain_runs(t).len() implies run_element(t, plain_runs(t)[k], #[trigger] out@[k]) by {
                    if k < prev_runs.len() - 1 {
                        assert(plain_runs(t)[k] == prev_runs[k]);
                        assert(out@[k] == out_before[k]);
                        assert(run_element(s.take(i as int), prev_runs[k], out_before[k]));
                        let rk = prev_runs[k];
                        assert forall|b: int| rk.0 <= b <= rk.1 implies plain_concat(t, rk.0, b) == plain_concat(s.take(i as int), rk.0, b) by {
                            lemma_concat_prefix(t, s.take(i as int), rk.0, b);
                        }
                    }
                }
            }
        } else {
            out.push(x);
            proof {
                if prev_runs.len() > 0 && is_plain(s[i as int]) {
                    let run = prev_runs.last();
                    assert(!is_plain(s.take(i as int)[run.0])) by {
                        if is_plain(s.take(i as int)[run.0]) {
                            if run.1 - run.0 == 1 {
                                assert(out@[prev_runs.len() - 1] == s.take(i as int)[run.0]);
                            }
                        }
                    }
                }
                assert(plain_runs(t) == prev_runs.push((i as int, i + 1)));
                assert forall|k: int| 0 <= k < plain_runs(t).len() implies run_element(t, plain_runs(t)[k], #[trigger] out@[k]) by {
                    if k < prev_runs.len() {
                        assert(plain_runs(t)[k] == prev_runs[k]);
                        assert(run_element(s.take(i as int), prev_runs[k], out@[k]));
                        let rk = prev_runs[k];
                        assert forall|b: int| rk.0 <= b <= rk.1 implies plain_concat(t, rk.0, b) == plain_concat(s.take(i as int), rk.0, b) by {
                            lemma_concat_prefix(t, s.take(i as int), rk.0, b);
                        }
                    }
                }
            }
        }
        i = i + 1;
    }
    proof {
        assert(s.take(n as int) =~= s);
    }
    out
}

proof fn lemma_concat_prefix(t: Seq<RichTextElement>, u: Seq<RichTextElement>, a: int, b: int)
    requires
        0 <= a,
        b <= u.len(),
        u.len() <= t.len(),
        forall|x: int| 0 <= x < u.len() ==> t[x] == u[x],
    ensures
        plain_concat(t, a, b) == plain_concat(u, a, b),
    decreases b - a,
{
    if b > a {
        lemma_concat_prefix(t, u, a, b - 1);
    }
}

//
// The text of rich text
//

/// The text of an element (empty where it has none).
pub open spec fn elem_text(r: RichTextElement) -> Seq<char> {
    match r.val {
        Some(v) => match rte_text(v) {
            Some(t) => t,
            None => Seq::empty(),
        },
        None => Seq::empty(),
    }
}

/// The texts of the elements, in order.
pub open spec fn texts_of(s: Seq<RichTextElement>) -> Seq<Seq<char>> {
    s.map_values(|r: RichTextElement| elem_text(r))
}

/// The whole text of rich text: the texts of its elements, one after the other.
pub open spec fn full_text(s: Seq<RichTextElement>) -> Seq<char> {
    concat_all(texts_of(s))
}

proof fn lemma_concat_all_append(a: Seq<Seq<char>>, b: Seq<Seq<char>>)
    ensures
        concat_all(a + b) == concat_all(a) + concat_all(b),
    decreases b.len(),
{
    if b.len() == 0 {
        assert(a + b =~= a);
        assert(concat_all(a) + concat_all(b) =~= concat_all(a));
    } else {
        lemma_concat_all_append(a, b.drop_last());
        assert((a + b).drop_last() =~= a + b.drop_last());
        assert((a + b).last() == b.last());
        assert(concat_all(a + b) =~= concat_all(a) + concat_all(b));
    }
}

pub proof fn lemma_full_text_append(a: Seq<RichTextElement>, b: Seq<RichTextElement>)
    ensures
        full_text(a + b) == full_text(a) + full_text(b),
{
    assert(texts_of(a + b) =~= texts_of(a) + texts_of(b));
    lemma_concat_all_append(texts_of(a), texts_of(b));
}

pub proof fn lemma_full_text_single(r: RichTextElement)
    ensures
        full_text(seq![r]) == elem_text(r),
{
    assert(texts_of(seq![r]).drop_last() =~= Seq::<Seq<char>>::empty());
    assert(concat_all(Seq::<Seq<char>>::empty()) + elem_text(r) =~= elem_text(r));
}

/// The text of the elements from `a` (inclusive) to `b` (exclusive).
pub open spec fn seg_text(s: Seq<RichTextElement>, a: int, b: int) -> Seq<char> {
    full_text(s.subrange(a, b))
}

proof fn lemma_seg_split(s: Seq<RichTextElement>, a: int, b: int, c: int)
    requires
        0 <= a <= b <= c <= s.len(),
    ensures
        seg_text(s, a, c) == seg_text(s, a, b) + seg_text(s, b, c),
{
    assert(s.subrange(a, c) =~= s.subrange(a, b) + s.subrange(b, c));
    lemma_full_text_append(s.subrange(a, b), s.subrange(b, c));
}

proof fn lemma_seg_one(s: Seq<RichTextElement>, a: int)
    requires
        0 <= a < s.len(),
    ensures
        seg_text(s, a, a + 1) == elem_text(s[a]),
{
    assert(s.subrange(a, a + 1) =~= seq![s[a]]);
    lemma_full_text_single(s[a]);
}

proof fn lemma_plain_concat_text(s: Seq<RichTextElement>, a: int, b: int)
    requires
        0 <= a <= b <= s.len(),
        forall|x: int| a <= x < b ==> is_plain(s[x]),
    ensures
        plain_concat(s, a, b) == seg_text(s, a, b),
    decreases b - a,
{
    if b == a {
        assert(s.subrange(a, a) =~= Seq::<RichTextElement>::empty());
        assert(texts_of(s.subrange(a, a)) =~= Seq::<Seq<char>>::empty());
    } else {
        lemma_plain_concat_text(s, a, b - 1);
        lemma_seg_split(s, a, b - 1, b);
        lemma_seg_one(s, b - 1);
    }
}

/// Each maximal run of plain elements, and each other element on its own, follow each other
/// from the first element to the last.
proof fn lemma_runs_tile(s: Seq<RichTextElement>)
    ensures
        plain_runs(s).len() > 0 ==> plain_runs(s)[0].0 == 0,
        forall|k: int| 0 <= k < plain_runs(s).len() - 1 ==> (#[trigger] plain_runs(s)[k]).1 == plain_runs(s)[k + 1].0,
        s.len() == 0 ==> plain_runs(s).len() == 0,
    decreases s.len(),
{
    if s.len() > 0 {
        let prev = plain_runs(s.drop_last());
        lemma_runs_tile(s.drop_last());
        lemma_runs_shape(s.drop_last());
        let runs = plain_runs(s);
        assert forall|k: int| 0 <= k < runs.len() - 1 implies (#[trigger] runs[k]).1 == runs[k + 1].0 by {
            assert(runs[k] == prev[k]);
            if k + 1 < prev.len() && !(k + 1 == prev.len() - 1 && runs.len() == prev.len()) {
                assert(runs[k + 1] == prev[k + 1]);
            }
        }
    }
}

proof fn lemma_run_element_text(s: Seq<RichTextElement>, run: (int, int), out: RichTextElement)
    requires
        0 <= run.0 < run.1 <= s.len(),
        run.1 - run.0 > 1 ==> forall|x: int| run.0 <= x < run.1 ==> is_plain(s[x]),
        run_element(s, run, out),
    ensures
        elem_text(out) == seg_text(s, run.0, run.1),
{
    if run.1 - run.0 == 1 {
        lemma_seg_one(s, run.0);
    } else {
        lemma_plain_concat_text(s, run.0, run.1);
    }
}

proof fn lemma_joined_prefix_text(s: Seq<RichTextElement>, out: Seq<RichTextElement>, k: int)
    requires
        plains_joined(s, out),
        0 <= k <= out.len(),
    ensures
        concat_all(texts_of(out).take(k)) == seg_text(s, 0, if k == 0 { 0 } else { plain_runs(s)[k - 1].1 }),
    decreases k,
{
    lemma_runs_shape(s);
    lemma_runs_tile(s);
    if k == 0 {
        assert(texts_of(out).take(0) =~= Seq::<Seq<char>>::empty());
        assert(s.subrange(0, 0) =~= Seq::<RichTextElement>::empty());
        assert(texts_of(s.subrange(0, 0)) =~= Seq::<Seq<char>>::empty());
    } else {
        lemma_joined_prefix_text(s, out, k - 1);
        let runs = plain_runs(s);
        let run = runs[k - 1];
        assert(texts_of(out).take(k).drop_last() =~= texts_of(out).take(k - 1));
        assert(texts_of(out).take(k).last() == elem_text(out[k - 1]));
        assert(run_element(s, run, out[k - 1]));
        lemma_run_element_text(s, run, out[k - 1]);
        let start = if k == 1 { 0 } else { runs[k - 2].1 };
        assert(start == run.0);
        lemma_seg_split(s, 0, run.0, run.1);
    }
}

/// Joining runs of plain elements keeps the text.
pub proof fn lemma_joined_keeps_text(s: Seq<RichTextElement>, out: Seq<RichTextElement>)
    requires
        plains_joined(s, out),
    ensures
        full_text(out) == full_text(s),
{
    lemma_runs_shape(s);
    lemma_runs_tile(s);
    lemma_joined_prefix_text(s, out, out.len() as int);
    assert(texts_of(out).take(out.len() as int) =~= texts_of(out));
    assert(s.subrange(0, s.len() as int) =~= s);
    if out.len() == 0 {
        assert(s.subrange(0, 0) =~= s);
    }
}

//
// Trimming
//

/// The text of an element that has one.
pub open spec fn text_of(r: RichTextElement) -> Seq<char> {
    rte_text(r.val.unwrap()).unwrap()
}

/// Whether an element is preformatted text.
pub open spec fn is_prefmt(r: RichTextElement) -> bool {
    r.val matches Some(RteVal::PrefmtInline { .. }) || r.val matches Some(RteVal::PrefmtBlock { .. })
}

/// Whether an element holds only whitespace; links and preformatted text never count as such.
pub open spec fn is_blank(r: RichTextElement) -> bool {
    match r.val {
        Some(RteVal::Link { .. }) => false,
        Some(RteVal::PrefmtInline { .. }) => false,
        Some(RteVal::PrefmtBlock { .. }) => false,
        Some(v) => all_white_chars(rte_text(v).unwrap()),
        None => false,
    }
}

/// Whether every character of `t` is whitespace.
pub open spec fn all_white_chars(t: Seq<char>) -> bool {
    forall|k: int| 0 <= k < t.len() ==> is_white_space(#[trigger] t[k])
}

/// Position of the first element that is not blank (the length if there is none).
pub open spec fn first_non_blank(s: Seq<RichTextElement>) -> int
    decreases s.len(),
{
    if s.len() == 0 {
        0
    } else if !is_blank(s[0]) {
        0
    } else {
        1 + first_non_blank(s.drop_first())
    }
}

/// Position of the last element that is not blank (-1 if there is none).
pub open spec fn last_non_blank(s: Seq<RichTextElement>) -> int
    decreases s.len(),
{
    if s.len() == 0 {
        -1
    } else if !is_blank(s.last()) {
        s.len() - 1
    } else {
        last_non_blank(s.drop_last())
    }
}

/// Whether `new` is `orig` with its text replaced by `t` (its searchable string kept).
pub open spec fn text_replaced(orig: RichTextElement, new: RichTextElement, t: Seq<char>) -> bool {
    &&& new.searchable_string == orig.searchable_string
    &&& match (orig.val, new.val) {
        (Some(RteVal::Plain { .. }), Some(RteVal::Plain { text })) => text@ == t,
        (Some(RteVal::Bold { .. }), Some(RteVal::Bold { text })) => text@ == t,
        (Some(RteVal::Italic { .. }), Some(RteVal::Italic { text })) => text@ == t,
        (Some(RteVal::Underline { .. }), Some(RteVal::Underline { text })) => text@ == t,
        (Some(RteVal::Strikethrough { .. }), Some(RteVal::Strikethrough { text })) => text@ == t,
        (Some(RteVal::Blockquote { .. }), Some(RteVal::Blockquote { text })) => text@ == t,
        (Some(RteVal::Spoiler { .. }), Some(RteVal::Spoiler { text })) => text@ == t,
        (
            Some(RteVal::Link { text_option: Some(_), href: h1, hidden: d1 }),
            Some(RteVal::Link { text_option: Some(text), href: h2, hidden: d2 }),
        ) => text@ == t && h1 == h2 && d1 == d2,
        _ => false,
    }
}

/// Whether `new` is `orig` with its text replaced by `t`, for an element whose text is
/// trimmed (not preformatted, and with a text); any other element stays as it is.
pub open spec fn trimmed_to(orig: RichTextElement, new: RichTextElement, t: Seq<char>) -> bool {
    if is_prefmt(orig) || rte_text(orig.val.unwrap()) is None {
        new == orig
    } else {
        text_replaced(orig, new, t)
    }
}

/// Whether `r` is `s` without its leading and trailing blank elements, the first element
/// left trimmed of leading whitespace and the last of trailing whitespace.
pub open spec fn blank_trimmed(s: Seq<RichTextElement>, r: Seq<RichTextElement>) -> bool {
    let f = first_non_blank(s);
    let l = last_non_blank(s);
    if f >= s.len() {
        r.len() == 0
    } else {
        &&& r.len() == l - f + 1
        &&& f == l ==> trimmed_to(s[f], r[0], trimmed(text_of(s[f])))
        &&& f < l ==> trimmed_to(s[f], r[0], trim_start_ws(text_of(s[f])))
        &&& f < l ==> trimmed_to(s[l], r[l - f], trim_end_ws(text_of(s[l])))
        &&& forall|k: int| 0 < k < l - f ==> r[k] == s[f + k]
    }
}

proof fn lemma_first_non_blank(s: Seq<RichTextElement>, f: int)
    requires
        0 <= f <= s.len(),
        forall|k: int| 0 <= k < f ==> is_blank(#[trigger] s[k]),
        f == s.len() || !is_blank(s[f]),
    ensures
        first_non_blank(s) == f,
    decreases f,
{
    if f > 0 {
        assert forall|k: int| 0 <= k < f - 1 implies is_blank(#[trigger] s.drop_first()[k]) by {
            assert(s.drop_first()[k] == s[k + 1]);
        }
        if f - 1 < s.drop_first().len() {
            assert(s.drop_first()[f - 1] == s[f]);
        }
        lemma_first_non_blank(s.drop_first(), f - 1);
    }
}

proof fn lemma_last_non_blank(s: Seq<RichTextElement>, l: int)
    requires
        0 <= l < s.len(),
        forall|k: int| l < k < s.len() ==> is_blank(#[trigger] s[k]),
        !is_blank(s[l]),
    ensures
        last_non_blank(s) == l,
    decreases s.len() - l,
{
    if l < s.len() - 1 {
        assert forall|k: int| l < k < s.drop_last().len() implies is_blank(#[trigger] s.drop_last()[k]) by {
            assert(s.drop_last()[k] == s[k]);
        }
        assert(s.drop_last()[l] == s[l]);
        lemma_last_non_blank(s.drop_last(), l);
    }
}

proof fn lemma_first_non_blank_props(s: Seq<RichTextElement>)
    ensures
        0 <= first_non_blank(s) <= s.len(),
        forall|k: int| 0 <= k < first_non_blank(s) ==> is_blank(#[trigger] s[k]),
        first_non_blank(s) < s.len() ==> !is_blank(s[first_non_blank(s)]),
    decreases s.len(),
{
    if s.len() > 0 && is_blank(s[0]) {
        lemma_first_non_blank_props(s.drop_first());
        assert forall|k: int| 0 <= k < first_non_blank(s) implies is_blank(#[trigger] s[k]) by {
            if k > 0 {
                assert(s[k] == s.drop_first()[k - 1]);
            }
        }
        if first_non_blank(s) < s.len() {
            assert(s[first_non_blank(s)] == s.drop_first()[first_non_blank(s) - 1]);
        }
    }
}

proof fn lemma_last_non_blank_props(s: Seq<RichTextElement>)
    ensures
        -1 <= last_non_blank(s) < s.len(),
        forall|k: int| last_non_blank(s) < k < s.len() ==> is_blank(#[trigger] s[k]),
        last_non_blank(s) >= 0 ==> !is_blank(s[last_non_blank(s)]),
    decreases s.len(),
{
    if s.len() > 0 && is_blank(s.last()) {
        lemma_last_non_blank_props(s.drop_last());
        assert forall|k: int| last_non_blank(s) < k < s.len() implies is_blank(#[trigger] s[k]) by {
            if k < s.len() - 1 {
                assert(s[k] == s.drop_last()[k]);
            }
        }
        if last_non_blank(s) >= 0 {
            assert(s[last_non_blank(s)] == s.drop_last()[last_non_blank(s)]);
        }
    }
}

proof fn lemma_white_append(x: Seq<char>, y: Seq<char>)
    requires
        all_white_chars(x),
        all_white_chars(y),
    ensures
        all_white_chars(x + y),
{
    assert forall|k: int| 0 <= k < (x + y).len() implies is_white_space(#[trigger] (x + y)[k]) by {
        if k < x.len() {
            assert((x + y)[k] == x[k]);
        } else {
            assert((x + y)[k] == y[k - x.len()]);
        }
    }
}

proof fn lemma_blanks_white(s: Seq<RichTextElement>, a: int, b: int)
    requires
        0 <= a <= b <= s.len(),
        forall|k: int| a <= k < b ==> is_blank(#[trigger] s[k]),
    ensures
        all_white_chars(seg_text(s, a, b)),
    decreases b - a,
{
    if a == b {
        assert(s.subrange(a, a) =~= Seq::<RichTextElement>::empty());
        assert(texts_of(s.subrange(a, a)) =~= Seq::<Seq<char>>::empty());
    } else {
        lemma_blanks_white(s, a, b - 1);
        lemma_seg_split(s, a, b - 1, b);
        lemma_seg_one(s, b - 1);
        assert(is_blank(s[b - 1]));
        lemma_white_append(seg_text(s, a, b - 1), elem_text(s[b - 1]));
    }
}

/// Text of an element whose text was replaced, or that was left as it is.
proof fn lemma_trimmed_to_text(orig: RichTextElement, new: RichTextElement, t: Seq<char>)
    requires
        orig.val is Some,
        trimmed_to(orig, new, t),
    ensures
        elem_text(new) == (if is_prefmt(orig) || rte_text(orig.val.unwrap()) is None { elem_text(orig) } else { t }),
        !(is_prefmt(orig) || rte_text(orig.val.unwrap()) is None) ==> elem_text(orig) == text_of(orig),
{
}

/// What trimming the start of an element's text took off: whitespace.
proof fn lemma_trim_start_piece(orig: RichTextElement, new: RichTextElement) -> (a: Seq<char>)
    requires
        orig.val is Some,
        trimmed_to(orig, new, trim_start_ws(text_of(orig))),
    ensures
        all_white_chars(a),
        elem_text(orig) == a + elem_text(new),
{
    lemma_trimmed_to_text(orig, new, trim_start_ws(text_of(orig)));
    if is_prefmt(orig) || rte_text(orig.val.unwrap()) is None {
        assert(elem_text(orig) =~= Seq::<char>::empty() + elem_text(new));
        Seq::empty()
    } else {
        let t = text_of(orig);
        lemma_leading_ws_white(t);
        t.take(leading_ws(t) as int)
    }
}

/// What trimming the end of an element's text took off: whitespace.
proof fn lemma_trim_end_piece(orig: RichTextElement, new: RichTextElement) -> (b: Seq<char>)
    requires
        orig.val is Some,
        trimmed_to(orig, new, trim_end_ws(text_of(orig))),
    ensures
        all_white_chars(b),
        elem_text(orig) == elem_text(new) + b,
{
    lemma_trimmed_to_text(orig, new, trim_end_ws(text_of(orig)));
    if is_prefmt(orig) || rte_text(orig.val.unwrap()) is None {
        assert(elem_text(orig) =~= elem_text(new) + Seq::<char>::empty());
        Seq::empty()
    } else {
        let t = text_of(orig);
        lemma_trailing_ws_white(t);
        let b = t.skip(t.len() - trailing_ws(t));
        assert forall|k: int| 0 <= k < b.len() implies is_white_space(#[trigger] b[k]) by {
            assert(b[k] == t[t.len() - trailing_ws(t) + k]);
        }
        b
    }
}

/// What trimming both ends of an element's text took off: whitespace.
proof fn lemma_trim_both_piece(orig: RichTextElement, new: RichTextElement) -> (ab: (Seq<char>, Seq<char>))
    requires
        orig.val is Some,
        trimmed_to(orig, new, trimmed(text_of(orig))),
    ensures
        all_white_chars(ab.0),
        all_white_chars(ab.1),
        elem_text(orig) == ab.0 + elem_text(new) + ab.1,
{
    lemma_trimmed_to_text(orig, new, trimmed(text_of(orig)));
    if is_prefmt(orig) || rte_text(orig.val.unwrap()) is None {
        assert(elem_text(orig) =~= Seq::<char>::empty() + elem_text(new) + Seq::<char>::empty());
        (Seq::empty(), Seq::empty())
    } else {
        let t = text_of(orig);
        lemma_leading_ws_white(t);
        let u = trim_start_ws(t);
        lemma_trailing_ws_white(u);
        let a = t.take(leading_ws(t) as int);
        let b = u.skip(u.len() - trailing_ws(u));
        assert forall|k: int| 0 <= k < b.len() implies is_white_space(#[trigger] b[k]) by {
            assert(b[k] == u[u.len() - trailing_ws(u) + k]);
        }
        assert(t =~= a + trimmed(t) + b);
        (a, b)
    }
}

/// The text of the kept elements, with the whitespace trimmed off the first and last of them,
/// is the text of those elements but for whitespace at its ends.
proof fn lemma_middle_text(s: Seq<RichTextElement>, r: Seq<RichTextElement>, f: int, l: int) -> (ab: (Seq<char>, Seq<char>))
    requires
        0 <= f <= l < s.len(),
        s[f].val is Some,
        s[l].val is Some,
        r.len() == l - f + 1,
        f == l ==> trimmed_to(s[f], r[0], trimmed(text_of(s[f]))),
        f < l ==> trimmed_to(s[f], r[0], trim_start_ws(text_of(s[f]))),
        f < l ==> trimmed_to(s[l], r[l - f], trim_end_ws(text_of(s[l]))),
        forall|k: int| 0 < k < l - f ==> r[k] == s[f + k],
    ensures
        all_white_chars(ab.0),
        all_white_chars(ab.1),
        seg_text(s, f, l + 1) == ab.0 + full_text(r) + ab.1,
{
    if f == l {
        lemma_seg_one(s, f);
        assert(r =~= seq![r[0]]);
        lemma_full_text_single(r[0]);
        lemma_trim_both_piece(s[f], r[0])
    } else {
        let n = l - f;
        lemma_seg_split(s, f, f + 1, l + 1);
        lemma_seg_split(s, f + 1, l, l + 1);
        lemma_seg_one(s, f);
        lemma_seg_one(s, l);
        let a = lemma_trim_start_piece(s[f], r[0]);
        let b = lemma_trim_end_piece(s[l], r[n]);
        let mid = r.subrange(1, n);
        assert(mid =~= s.subrange(f + 1, l));
        assert(r =~= seq![r[0]] + mid + seq![r[n]]);
        lemma_full_text_append(seq![r[0]] + mid, seq![r[n]]);
        lemma_full_text_append(seq![r[0]], mid);
        lemma_full_text_single(r[0]);
        lemma_full_text_single(r[n]);
        assert(seg_text(s, f, l + 1) =~= a + full_text(r) + b);
        (a, b)
    }
}

/// Dropping blank elements at the ends and trimming the text at both ends keeps the text but
/// for whitespace at its ends.
pub proof fn lemma_trim_keeps_text(s: Seq<RichTextElement>, r: Seq<RichTextElement>)
    requires
        forall|k: int| 0 <= k < s.len() ==> (#[trigger] s[k]).val is Some,
        blank_trimmed(s, r),
    ensures
        exists|w1: Seq<char>, w2: Seq<char>|
            all_white_chars(w1) && all_white_chars(w2) && full_text(s) == w1 + full_text(r) + w2,
{
    let f = first_non_blank(s);
    let l = last_non_blank(s);
    lemma_first_non_blank_props(s);
    lemma_last_non_blank_props(s);
    assert(s.subrange(0, s.len() as int) =~= s);
    if f >= s.len() {
        lemma_blanks_white(s, 0, s.len() as int);
        assert(texts_of(r) =~= Seq::<Seq<char>>::empty());
        let e = Seq::<char>::empty();
        assert(all_white_chars(e));
        assert(full_text(s) =~= full_text(s) + full_text(r) + e);
    } else {
        if l < f {
            assert(is_blank(s[f]));
        }
        lemma_blanks_white(s, 0, f);
        lemma_blanks_white(s, l + 1, s.len() as int);
        lemma_seg_split(s, 0, f, s.len() as int);
        lemma_seg_split(s, f, l + 1, s.len() as int);
        let w_start = seg_text(s, 0, f);
        let w_end = seg_text(s, l + 1, s.len() as int);
        let ab = lemma_middle_text(s, r, f, l);
        lemma_white_append(w_start, ab.0);
        lemma_white_append(ab.1, w_end);
        assert(full_text(s) =~= (w_start + ab.0) + full_text(r) + (ab.1 + w_end));
    }
}

fn all_white(s: &str) -> (r: bool)
    ensures
        r == all_white_chars(s@),
{
    let cs = chars_of(s);
    let mut i: usize = 0;
    while i < cs.len()
        invariant
            cs@ == s@,
            0 <= i <= cs@.len(),
            forall|k: int| 0 <= k < i ==> is_white_space(#[trigger] s@[k]),
        decreases cs@.len() - i,
    {
        if !char_is_white_space(cs[i]) {
            return false;
        }
        i = i + 1;
    }
    true
}

fn is_blank_element(r: &RichTextElement) -> (b: bool)
    requires
        r.val is Some,
    ensures
        b == is_blank(*r),
{
    match &r.val {
        Some(RteVal::Link { .. }) => false,
        Some(RteVal::PrefmtInline { .. }) => false,
        Some(RteVal::PrefmtBlock { .. }) => false,
        Some(RteVal::Plain { text }) => all_white(text.as_str()),
        Some(RteVal::Bold { text }) => all_white(text.as_str()),
        Some(RteVal::Italic { text }) => all_white(text.as_str()),
        Some(RteVal::Underline { text }) => all_white(text.as_str()),
        Some(RteVal::Strikethrough { text }) => all_white(text.as_str()),
        Some(RteVal::Blockquote { text }) => all_white(text.as_str()),
        Some(RteVal::Spoiler { text }) => all_white(text.as_str()),
        None => false,
    }
}

/// Trims leading (`start`) and trailing (`end`) whitespace off the text of an element that is
/// not preformatted.
fn trim_element_text(r: &mut RichTextElement, start: bool, end: bool)
    requires
        old(r).val is Some,
    ensures
        trimmed_to(
            *old(r),
            *final(r),
            if start && end {
                trimmed(text_of(*old(r)))
            } else if start {
                trim_start_ws(text_of(*old(r)))
            } else if end {
                trim_end_ws(text_of(*old(r)))
            } else {
                text_of(*old(r))
            },
        ),
{
    let ghost orig = *r;
    match &mut r.val {
        Some(RteVal::Plain { text }) => {
            let t = trim_string(text.as_str(), start, end);
            *text = t;
        },
        Some(RteVal::Bold { text }) => {
            let t = trim_string(text.as_str(), start, end);
            *text = t;
        },
        Some(RteVal::Italic { text }) => {
            let t = trim_string(text.as_str(), start, end);
            *text = t;
        },
        Some(RteVal::Underline { text }) => {
            let t = trim_string(text.as_str(), start, end);
            *text = t;
        },
        Some(RteVal::Strikethrough { text }) => {
            let t = trim_string(text.as_str(), start, end);
            *text = t;
        },
        Some(RteVal::Blockquote { text }) => {
            let t = trim_string(text.as_str(), start, end);
            *text = t;
        },
        Some(RteVal::Spoiler { text }) => {
            let t = trim_string(text.as_str(), start, end);
            *text = t;
        },
        Some(RteVal::Link { text_option: Some(text), .. }) => {
            let t = trim_string(text.as_str(), start, end);
            *text = t;
        },
        _ => {},
    }
}

fn trim_string(s: &str, start: bool, end: bool) -> (r: String)
    ensures
        r@ == (if start && end {
            trimmed(s@)
        } else if start {
            trim_start_ws(s@)
        } else if end {
            trim_end_ws(s@)
        } else {
            s@
        }),
{
    let a = if start { str_trim_start(s) } else { s };
    let b = if end { str_trim_end(a) } else { a };
    b.to_owned()
}

/// Drops the leading and trailing blank elements, and trims leading whitespace off the
/// first element left and trailing whitespace off the last one.
pub fn trim_rich_text(rtes: Vec<RichTextElement>) -> (r: Vec<RichTextElement>)
    requires
        forall|k: int| 0 <= k < rtes@.len() ==> (#[trigger] rtes@[k]).val is Some,
    ensures
        blank_trimmed(rtes@, r@),
{
    let ghost s = rtes@;
    let n = rtes.len();
    let mut f: usize = 0;
    while f < n && is_blank_element(&rtes[f])
        invariant
            n == rtes@.len(),
            0 <= f <= n,
            forall|k: int| 0 <= k < rtes@.len() ==> (#[trigger] rtes@[k]).val is Some,
            forall|k: int| 0 <= k < f ==> is_blank(#[trigger] rtes@[k]),
        decreases n - f,
    {
        f = f + 1;
    }
    proof {
        lemma_first_non_blank(s, f as int);
    }
    if f == n {
        return Vec::new();
    }
    let mut l: usize = n - 1;
    while l > f && is_blank_element(&rtes[l])
        invariant
            n == rtes@.len(),
            f <= l < n,
            !is_blank(rtes@[f as int]),
            forall|k: int| 0 <= k < rtes@.len() ==> (#[trigger] rtes@[k]).val is Some,
            forall|k: int| l < k < n ==> is_blank(#[trigger] rtes@[k]),
        decreases l,
    {
        l = l - 1;
    }
    proof {
        lemma_last_non_blank(s, l as int);
    }
    let mut out: Vec<RichTextElement> = Vec::new();
    let mut i: usize = 0;
    for x in it: rtes.into_iter()
        invariant
            i == it.index(),
            it.seq() == s,
            n == s.len(),
            f <= l < n,
            forall|k: int| 0 <= k < s.len() ==> (#[trigger] s[k]).val is Some,
            out@.len() == (if i <= f { 0 } else if i <= l { i - f } else { l - f + 1 }),
            f == l && i > f ==> trimmed_to(s[f as int], out@[0], trimmed(text_of(s[f as int]))),
            f < l && i > f ==> trimmed_to(s[f as int], out@[0], trim_start_ws(text_of(s[f as int]))),
            f < l && i > l ==> trimmed_to(s[l as int], out@[l - f], trim_end_ws(text_of(s[l as int]))),
            forall|k: int| 0 < k < l - f && f + k < i ==> out@[k] == s[f + k],
    {
        let mut x = x;
        proof {
            assert(x == s[i as int]);
        }
        if i == f {
            trim_element_text(&mut x, true, f == l);
            out.push(x);
        } else if i == l {
            trim_element_text(&mut x, false, true);
            out.push(x);
        } else if f < i && i < l {
            out.push(x);
        }
        i = i + 1;
    }
    out
}

/// Normalized rich text: each run of consecutive plain elements joined into one, then the
/// leading and trailing blank elements dropped and the text trimmed at both ends.
pub fn normalize_rich_text(rtes: Vec<RichTextElement>) -> (r: Vec<RichTextElement>)
    requires
        forall|k: int| 0 <= k < rtes@.len() ==> (#[trigger] rtes@[k]).val is Some,
    ensures
        exists|joined: Seq<RichTextElement>| plains_joined(rtes@, joined) && blank_trimmed(joined, r@),
        exists|w1: Seq<char>, w2: Seq<char>|
            all_white_chars(w1) && all_white_chars(w2) && full_text(rtes@) == w1 + full_text(r@) + w2,
{
    let ghost s = rtes@;
    let joined = join_plain_runs(rtes);
    proof {
        lemma_runs_shape(s);
        assert forall|k: int| 0 <= k < joined@.len() implies (#[trigger] joined@[k]).val is Some by {
            let run = plain_runs(s)[k];
            assert(run_element(s, run, joined@[k]));
        }
    }
    let ghost j = joined@;
    let r = trim_rich_text(joined);
    assert(plains_joined(s, j) && blank_trimmed(j, r@));
    proof {
        lemma_joined_keeps_text(s, j);
        lemma_trim_keeps_text(j, r@);
    }
    r
}

} // verus!
