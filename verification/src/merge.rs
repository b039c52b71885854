//! Merge analysis of two snapshots of one chat: the master (older) and the slave (newer)
//! message streams are walked side by side and cut into sections of matching, retained,
//! added and conflicting messages.
use vstd::prelude::*;
use crate::ids::{MasterInternalId, SlaveInternalId};

verus! {

#[derive(Clone, Copy, Debug, PartialEq, Eq, Structural)]
pub struct MergeAnalysisSectionMatch {
    pub first_master_msg_id: MasterInternalId,
    pub last_master_msg_id: MasterInternalId,
    pub first_slave_msg_id: SlaveInternalId,
    pub last_slave_msg_id: SlaveInternalId,
}

#[derive(Clone, Copy, Debug, PartialEq, Eq, Structural)]
pub struct MergeAnalysisSectionRetention {
    pub first_master_msg_id: MasterInternalId,
    pub last_master_msg_id: MasterInternalId,
}

#[derive(Clone, Copy, Debug, PartialEq, Eq, Structural)]
pub struct MergeAnalysisSectionAddition {
    pub first_slave_msg_id: SlaveInternalId,
    pub last_slave_msg_id: SlaveInternalId,
}

#[derive(Clone, Copy, Debug, PartialEq, Eq, Structural)]
pub struct MergeAnalysisSectionConflict {
    pub first_master_msg_id: MasterInternalId,
    pub last_master_msg_id: MasterInternalId,
    pub first_slave_msg_id: SlaveInternalId,
    pub last_slave_msg_id: SlaveInternalId,
}

/// A section of the merge analysis: a run of master messages matching slave messages one to
/// one, master messages absent from the slave (retention), slave messages absent from the
/// master (addition), or master and slave messages in conflict.
#[derive(Clone, Copy, Debug, PartialEq, Eq, Structural)]
pub enum MergeAnalysisSection {
    Match(MergeAnalysisSectionMatch),
    Retention(MergeAnalysisSectionRetention),
    Addition(MergeAnalysisSectionAddition),
    Conflict(MergeAnalysisSectionConflict),
}

/// Kind of a section.
#[derive(Clone, Copy, Debug, PartialEq, Eq, Structural)]
pub enum SectionKind {
    Match,
    Retention,
    Addition,
    Conflict,
}

/// A section by positions: kind, master messages `[.1, .2)` and slave messages `[.3, .4)`.
pub type Sec = (SectionKind, int, int, int, int);

/// A section in progress: kind, first master position, first slave position.
pub type InProgress = (SectionKind, int, int);

/// Outcome of comparing the heads of the streams: -1 when the master message comes first,
/// 1 when the slave message does, 0 when neither, 2 when they cannot be ordered.
pub type OrderFn = spec_fn(int, int) -> int;

/// Whether master message `i` matches slave message `j` (`None` when the comparison fails).
pub type MatchFn = spec_fn(int, int) -> Option<bool>;

/// Failure codes of the analysis.
pub open spec fn time_shift_code() -> int { 0 }

pub open spec fn comparison_failed_code() -> int { 1 }

/// Order of the stream heads at positions `i` and `j`, taking exhausted streams into account.
pub open spec fn head_order(ml: int, sl: int, ord: OrderFn, i: int, j: int) -> int {
    if i < ml && j < sl {
        ord(i, j)
    } else if i >= ml && j >= sl {
        0
    } else if i >= ml {
        1
    } else {
        -1
    }
}

pub open spec fn run_measure(ml: int, sl: int, i: int, j: int, st: Option<InProgress>) -> int {
    2 * ((ml - i) + (sl - j)) + if st is Some { 1int } else { 0int }
}

/// The analysis as a state machine over stream positions. `mt` tells whether the heads
/// match, `tsm` whether they would match if the master head had the slave head's timestamp,
/// `sid` whether the heads carry the same source ID, `ord` how the heads are ordered.
/// The outcome is `None` where the analysis cannot go on (heads that cannot be ordered),
/// an error (code and positions) where a comparison fails or a time shift between the
/// datasets shows, and the sections otherwise.
pub open spec fn analysis_run(
    ml: int,
    sl: int,
    mt: MatchFn,
    tsm: MatchFn,
    sid: spec_fn(int, int) -> bool,
    ord: OrderFn,
    i: int,
    j: int,
    st: Option<InProgress>,
    acc: Seq<Sec>,
) -> Option<Result<Seq<Sec>, (int, int, int)>>
    decreases run_measure(ml, sl, i, j, st),
    when 0 <= i <= ml && 0 <= j <= sl
{
    let pm = i < ml;
    let ps = j < sl;
    let c = head_order(ml, sl, ord, i, j);
    match st {
        None => {
            if pm && ps && mt(i, j) is None {
                Some(Err((comparison_failed_code(), i, j)))
            } else if pm && ps && mt(i, j) == Some(true) {
                analysis_run(ml, sl, mt, tsm, sid, ord, i + 1, j + 1, Some((SectionKind::Match, i, j)), acc)
            } else if pm && ps && sid(i, j) {
                if tsm(i, j) is None {
                    Some(Err((comparison_failed_code(), i, j)))
                } else if tsm(i, j) == Some(true) {
                    Some(Err((time_shift_code(), i, j)))
                } else {
                    analysis_run(ml, sl, mt, tsm, sid, ord, i + 1, j + 1, Some((SectionKind::Conflict, i, j)), acc)
                }
            } else if ps && c == 2 {
                None
            } else if ps && c == 1 {
                analysis_run(ml, sl, mt, tsm, sid, ord, i, j + 1, Some((SectionKind::Addition, i, j)), acc)
            } else if pm && c == -1 {
                analysis_run(ml, sl, mt, tsm, sid, ord, i + 1, j, Some((SectionKind::Retention, i, j)), acc)
            } else if !pm && !ps {
                Some(Ok(acc))
            } else {
                None
            }
        },
        Some((k, mf, sf)) => {
            let end = acc.push((k, mf, i, sf, j));
            match k {
                SectionKind::Match => {
                    if pm && ps && mt(i, j) is None {
                        Some(Err((comparison_failed_code(), i, j)))
                    } else if pm && ps && mt(i, j) == Some(true) {
                        analysis_run(ml, sl, mt, tsm, sid, ord, i + 1, j + 1, st, acc)
                    } else {
                        analysis_run(ml, sl, mt, tsm, sid, ord, i, j, None, end)
                    }
                },
                SectionKind::Conflict => {
                    if pm && ps && mt(i, j) is None {
                        Some(Err((comparison_failed_code(), i, j)))
                    } else if pm && ps && mt(i, j) == Some(false) {
                        analysis_run(ml, sl, mt, tsm, sid, ord, i + 1, j + 1, st, acc)
                    } else {
                        analysis_run(ml, sl, mt, tsm, sid, ord, i, j, None, end)
                    }
                },
                SectionKind::Addition => {
                    if ps && c == 2 {
                        None
                    } else if ps && c == 1 {
                        analysis_run(ml, sl, mt, tsm, sid, ord, i, j + 1, st, acc)
                    } else {
                        analysis_run(ml, sl, mt, tsm, sid, ord, i, j, None, end)
                    }
                },
                SectionKind::Retention => {
                    if pm && c == 2 {
                        None
                    } else if pm && c == -1 {
                        analysis_run(ml, sl, mt, tsm, sid, ord, i + 1, j, st, acc)
                    } else {
                        analysis_run(ml, sl, mt, tsm, sid, ord, i, j, None, end)
                    }
                },
            }
        },
    }
}

//
// The partition law
//

/// Whether a section has the shape of its kind: matches and conflicts pair up equally many
/// (at least one) master and slave messages, retentions hold only master messages and
/// additions only slave messages (at least one).
pub open spec fn section_shape_ok(s: Sec) -> bool {
    let (k, mf, mt, sf, st) = s;
    match k {
        SectionKind::Match => mf < mt && sf < st && mt - mf == st - sf,
        SectionKind::Conflict => mf < mt && sf < st && mt - mf == st - sf,
        SectionKind::Retention => mf < mt && sf == st,
        SectionKind::Addition => mf == mt && sf < st,
    }
}

/// Whether the messages of a section relate as its kind says: in a match every pair matches,
/// in a conflict no pair does (and the first pair carries the same source ID), retained master messages come before the next slave message
/// (if any), added slave messages come before the next master message (if any).
pub open spec fn section_sound(ml: int, sl: int, mt: MatchFn, sid: spec_fn(int, int) -> bool, ord: OrderFn, s: Sec) -> bool {
    let (k, mf, mto, sf, sto) = s;
    match k {
        SectionKind::Match => forall|d: int| 0 <= d < mto - mf ==> #[trigger] mt(mf + d, sf + d) == Some(true),
        SectionKind::Conflict => sid(mf, sf) && forall|d: int| 0 <= d < mto - mf ==> #[trigger] mt(mf + d, sf + d) == Some(false),
        SectionKind::Retention => forall|x: int| mf <= x < mto ==> #[trigger] head_order(ml, sl, ord, x, sf) == -1,
        SectionKind::Addition => forall|y: int| sf <= y < sto ==> #[trigger] head_order(ml, sl, ord, mf, y) == 1,
    }
}

/// Whether the sections cover master positions `[0, a)` and slave positions `[0, b)` in
/// order, each section starting where the previous one ended.
pub open spec fn sections_cover(secs: Seq<Sec>, a: int, b: int) -> bool {
    &&& secs.len() == 0 ==> a == 0 && b == 0
    &&& secs.len() > 0 ==> secs[0].1 == 0 && secs[0].3 == 0 && secs.last().2 == a && secs.last().4 == b
    &&& forall|k: int| 0 <= k < secs.len() - 1 ==> (#[trigger] secs[k]).2 == secs[k + 1].1 && secs[k].4 == secs[k + 1].3
}

pub open spec fn sections_valid(ml: int, sl: int, mt: MatchFn, sid: spec_fn(int, int) -> bool, ord: OrderFn, secs: Seq<Sec>, a: int, b: int) -> bool {
    &&& sections_cover(secs, a, b)
    &&& forall|k: int| 0 <= k < secs.len() ==> section_shape_ok(#[trigger] secs[k])
    &&& forall|k: int| 0 <= k < secs.len() ==> section_sound(ml, sl, mt, sid, ord, #[trigger] secs[k])
}

/// Invariant of the analysis state: the finished sections cover everything before the
/// current section (or position, when no section is in progress), and the section in
/// progress is sound and non-empty so far.
pub open spec fn state_ok(ml: int, sl: int, mt: MatchFn, sid: spec_fn(int, int) -> bool, ord: OrderFn, i: int, j: int, st: Option<InProgress>, acc: Seq<Sec>) -> bool {
    &&& 0 <= i <= ml && 0 <= j <= sl
    &&& match st {
        None => sections_valid(ml, sl, mt, sid, ord, acc, i, j),
        Some((k, mf, sf)) => {
            &&& sections_valid(ml, sl, mt, sid, ord, acc, mf, sf)
            &&& section_shape_ok((k, mf, i, sf, j))
            &&& section_sound(ml, sl, mt, sid, ord, (k, mf, i, sf, j))
        },
    }
}

proof fn lemma_push_section(ml: int, sl: int, mt: MatchFn, sid: spec_fn(int, int) -> bool, ord: OrderFn, acc: Seq<Sec>, s: Sec)
    requires
        sections_valid(ml, sl, mt, sid, ord, acc, s.1, s.3),
        section_shape_ok(s),
        section_sound(ml, sl, mt, sid, ord, s),
    ensures
        sections_valid(ml, sl, mt, sid, ord, acc.push(s), s.2, s.4),
{
    let n = acc.push(s);
    assert(n.last() == s);
    assert forall|k: int| 0 <= k < n.len() - 1 implies (#[trigger] n[k]).2 == n[k + 1].1 && n[k].4 == n[k + 1].3 by {
        if k < acc.len() - 1 {
            assert(n[k] == acc[k] && n[k + 1] == acc[k + 1]);
        } else {
            assert(n[k] == acc.last() && n[k + 1] == s);
        }
    }
    assert forall|k: int| 0 <= k < n.len() implies section_shape_ok(#[trigger] n[k]) by {
        if k < acc.len() {
            assert(n[k] == acc[k]);
        }
    }
    assert forall|k: int| 0 <= k < n.len() implies section_sound(ml, sl, mt, sid, ord, #[trigger] n[k]) by {
        if k < acc.len() {
            assert(n[k] == acc[k]);
        }
    }
    if acc.len() == 0 {
        assert(n[0] == s);
    } else {
        assert(n[0] == acc[0]);
    }
}

/// Whatever state the analysis is in, if it ends with sections, they cover both streams
/// entirely, and each is well-shaped and sound.
proof fn lemma_run_valid(
    ml: int,
    sl: int,
    mt: MatchFn,
    tsm: MatchFn,
    sid: spec_fn(int, int) -> bool,
    ord: OrderFn,
    i: int,
    j: int,
    st: Option<InProgress>,
    acc: Seq<Sec>,
)
    requires
        state_ok(ml, sl, mt, sid, ord, i, j, st, acc),
        analysis_run(ml, sl, mt, tsm, sid, ord, i, j, st, acc) matches Some(Ok(_)),
    ensures
        analysis_run(ml, sl, mt, tsm, sid, ord, i, j, st, acc) matches Some(Ok(secs))
            && sections_valid(ml, sl, mt, sid, ord, secs, ml, sl),
    decreases run_measure(ml, sl, i, j, st),
{
    let pm = i < ml;
    let ps = j < sl;
    let c = head_order(ml, sl, ord, i, j);
    match st {
        None => {
            if pm && ps && mt(i, j) is None {
            } else if pm && ps && mt(i, j) == Some(true) {
                let st2 = Some((SectionKind::Match, i, j));
                assert(section_sound(ml, sl, mt, sid, ord, (SectionKind::Match, i, i + 1, j, j + 1))) by {
                    assert forall|d: int| 0 <= d < 1 implies #[trigger] mt(i + d, j + d) == Some(true) by {
                        assert(d == 0);
                    }
                }
                lemma_run_valid(ml, sl, mt, tsm, sid, ord, i + 1, j + 1, st2, acc);
            } else if pm && ps && sid(i, j) {
                if tsm(i, j) is None {
                } else if tsm(i, j) == Some(true) {
                } else {
                    let st2 = Some((SectionKind::Conflict, i, j));
                    assert(section_sound(ml, sl, mt, sid, ord, (SectionKind::Conflict, i, i + 1, j, j + 1))) by {
                        assert forall|d: int| 0 <= d < 1 implies #[trigger] mt(i + d, j + d) == Some(false) by {
                            assert(d == 0);
                        }
                    }
                    lemma_run_valid(ml, sl, mt, tsm, sid, ord, i + 1, j + 1, st2, acc);
                }
            } else if ps && c == 2 {
            } else if ps && c == 1 {
                let st2 = Some((SectionKind::Addition, i, j));
                assert(section_sound(ml, sl, mt, sid, ord, (SectionKind::Addition, i, i, j, j + 1))) by {
                    assert forall|y: int| j <= y < j + 1 implies #[trigger] head_order(ml, sl, ord, i, y) == 1 by {
                        assert(y == j);
                    }
                }
                lemma_run_valid(ml, sl, mt, tsm, sid, ord, i, j + 1, st2, acc);
            } else if pm && c == -1 {
                let st2 = Some((SectionKind::Retention, i, j));
                assert(section_sound(ml, sl, mt, sid, ord, (SectionKind::Retention, i, i + 1, j, j))) by {
                    assert forall|x: int| i <= x < i + 1 implies #[trigger] head_order(ml, sl, ord, x, j) == -1 by {
                        assert(x == i);
                    }
                }
                lemma_run_valid(ml, sl, mt, tsm, sid, ord, i + 1, j, st2, acc);
            } else if !pm && !ps {
            } else {
            }
        },
        Some((k, mf, sf)) => {
            let end = acc.push((k, mf, i, sf, j));
            match k {
                SectionKind::Match => {
                    if pm && ps && mt(i, j) is None {
                    } else if pm && ps && mt(i, j) == Some(true) {
                        assert(section_sound(ml, sl, mt, sid, ord, (k, mf, i + 1, sf, j + 1))) by {
                            assert forall|d: int| 0 <= d < i + 1 - mf implies #[trigger] mt(mf + d, sf + d) == Some(true) by {
                                if d < i - mf {
                                } else {
                                    assert(mf + d == i && sf + d == j);
                                }
                            }
                        }
                        lemma_run_valid(ml, sl, mt, tsm, sid, ord, i + 1, j + 1, st, acc);
                    } else {
                        lemma_push_section(ml, sl, mt, sid, ord, acc, (k, mf, i, sf, j));
                        lemma_run_valid(ml, sl, mt, tsm, sid, ord, i, j, None, end);
                    }
                },
                SectionKind::Conflict => {
                    if pm && ps && mt(i, j) is None {
                    } else if pm && ps && mt(i, j) == Some(false) {
                        assert(section_sound(ml, sl, mt, sid, ord, (k, mf, i + 1, sf, j + 1))) by {
                            assert forall|d: int| 0 <= d < i + 1 - mf implies #[trigger] mt(mf + d, sf + d) == Some(false) by {
                                if d < i - mf {
                                } else {
                                    assert(mf + d == i && sf + d == j);
                                }
                            }
                        }
                        lemma_run_valid(ml, sl, mt, tsm, sid, ord, i + 1, j + 1, st, acc);
                    } else {
                        lemma_push_section(ml, sl, mt, sid, ord, acc, (k, mf, i, sf, j));
                        lemma_run_valid(ml, sl, mt, tsm, sid, ord, i, j, None, end);
                    }
                },
                SectionKind::Addition => {
                    if ps && c == 2 {
                    } else if ps && c == 1 {
                        assert(section_sound(ml, sl, mt, sid, ord, (k, mf, i, sf, j + 1))) by {
                            assert forall|y: int| sf <= y < j + 1 implies #[trigger] head_order(ml, sl, ord, mf, y) == 1 by {
                                if y < j {
                                } else {
                                    assert(mf == i);
                                }
                            }
                        }
                        lemma_run_valid(ml, sl, mt, tsm, sid, ord, i, j + 1, st, acc);
                    } else {
                        lemma_push_section(ml, sl, mt, sid, ord, acc, (k, mf, i, sf, j));
                        lemma_run_valid(ml, sl, mt, tsm, sid, ord, i, j, None, end);
                    }
                },
                SectionKind::Retention => {
                    if pm && c == 2 {
                    } else if pm && c == -1 {
                        assert(section_sound(ml, sl, mt, sid, ord, (k, mf, i + 1, sf, j))) by {
                            assert forall|x: int| mf <= x < i + 1 implies #[trigger] head_order(ml, sl, ord, x, sf) == -1 by {
                                if x < i {
                                } else {
                                    assert(sf == j);
                                }
                            }
                        }
                        lemma_run_valid(ml, sl, mt, tsm, sid, ord, i + 1, j, st, acc);
                    } else {
                        lemma_push_section(ml, sl, mt, sid, ord, acc, (k, mf, i, sf, j));
                        lemma_run_valid(ml, sl, mt, tsm, sid, ord, i, j, None, end);
                    }
                },
            }
        },
    }
}

/// The merge analysis accounts for every message of both snapshots exactly once and in
/// order: when it ends with sections, they cut the master and the slave streams into
/// consecutive runs starting at the beginning and ending at the end; each match pairs
/// messages that match one to one, each conflict pairs messages none of which match and
/// starts with a master and a slave message that carry the same source ID, each
/// retention holds only master messages that come before the next slave message, and each
/// addition only slave messages that come before the next master message.
pub proof fn law_analysis_partitions_streams(
    ml: int,
    sl: int,
    mt: MatchFn,
    tsm: MatchFn,
    sid: spec_fn(int, int) -> bool,
    ord: OrderFn,
)
    requires
        0 <= ml,
        0 <= sl,
        analysis_run(ml, sl, mt, tsm, sid, ord, 0, 0, None, Seq::empty()) matches Some(Ok(_)),
    ensures
        analysis_run(ml, sl, mt, tsm, sid, ord, 0, 0, None, Seq::empty()) matches Some(Ok(secs))
            && sections_valid(ml, sl, mt, sid, ord, secs, ml, sl),
{
    lemma_run_valid(ml, sl, mt, tsm, sid, ord, 0, 0, None, Seq::empty());
}

} // verus!

verus! {

//
// Forcing conflicts
//

pub open spec fn is_match(s: MergeAnalysisSection) -> bool {
    s is Match
}

pub open spec fn first_master_of(s: MergeAnalysisSection) -> Option<MasterInternalId> {
    match s {
        MergeAnalysisSection::Match(v) => Some(v.first_master_msg_id),
        MergeAnalysisSection::Retention(v) => Some(v.first_master_msg_id),
        MergeAnalysisSection::Addition(_) => None,
        MergeAnalysisSection::Conflict(v) => Some(v.first_master_msg_id),
    }
}

pub open spec fn last_master_of(s: MergeAnalysisSection) -> Option<MasterInternalId> {
    match s {
        MergeAnalysisSection::Match(v) => Some(v.last_master_msg_id),
        MergeAnalysisSection::Retention(v) => Some(v.last_master_msg_id),
        MergeAnalysisSection::Addition(_) => None,
        MergeAnalysisSection::Conflict(v) => Some(v.last_master_msg_id),
    }
}

pub open spec fn first_slave_of(s: MergeAnalysisSection) -> Option<SlaveInternalId> {
    match s {
        MergeAnalysisSection::Match(v) => Some(v.first_slave_msg_id),
        MergeAnalysisSection::Retention(_) => None,
        MergeAnalysisSection::Addition(v) => Some(v.first_slave_msg_id),
        MergeAnalysisSection::Conflict(v) => Some(v.first_slave_msg_id),
    }
}

pub open spec fn last_slave_of(s: MergeAnalysisSection) -> Option<SlaveInternalId> {
    match s {
        MergeAnalysisSection::Match(v) => Some(v.last_slave_msg_id),
        MergeAnalysisSection::Retention(_) => None,
        MergeAnalysisSection::Addition(v) => Some(v.last_slave_msg_id),
        MergeAnalysisSection::Conflict(v) => Some(v.last_slave_msg_id),
    }
}

/// First master message ID over a run of sections (from the first section that has one).
pub open spec fn first_master_in(a: Seq<MergeAnalysisSection>) -> Option<MasterInternalId>
    decreases a.len(),
{
    if a.len() == 0 {
        None
    } else {
        match first_master_in(a.drop_last()) {
            Some(x) => Some(x),
            None => first_master_of(a.last()),
        }
    }
}

/// Last master message ID over a run of sections (from the last section that has one).
pub open spec fn last_master_in(a: Seq<MergeAnalysisSection>) -> Option<MasterInternalId>
    decreases a.len(),
{
    if a.len() == 0 {
        None
    } else {
        match last_master_of(a.last()) {
            Some(x) => Some(x),
            None => last_master_in(a.drop_last()),
        }
    }
}

pub open spec fn first_slave_in(a: Seq<MergeAnalysisSection>) -> Option<SlaveInternalId>
    decreases a.len(),
{
    if a.len() == 0 {
        None
    } else {
        match first_slave_in(a.drop_last()) {
            Some(x) => Some(x),
            None => first_slave_of(a.last()),
        }
    }
}

pub open spec fn last_slave_in(a: Seq<MergeAnalysisSection>) -> Option<SlaveInternalId>
    decreases a.len(),
{
    if a.len() == 0 {
        None
    } else {
        match last_slave_of(a.last()) {
            Some(x) => Some(x),
            None => last_slave_in(a.drop_last()),
        }
    }
}

/// Position of the first section that is not a match (the length if there is none).
pub open spec fn first_non_match(a: Seq<MergeAnalysisSection>) -> int
    decreases a.len(),
{
    if a.len() == 0 {
        0
    } else if !is_match(a[0]) {
        0
    } else {
        1 + first_non_match(a.drop_first())
    }
}

pub open spec fn all_match(a: Seq<MergeAnalysisSection>) -> bool {
    forall|k: int| 0 <= k < a.len() ==> is_match(#[trigger] a[k])
}

/// End (exclusive) of the run to merge: just before a trailing match, if any.
pub open spec fn merge_end(a: Seq<MergeAnalysisSection>) -> int {
    if is_match(a.last()) {
        a.len() - 1
    } else {
        a.len() as int
    }
}

/// Everything starting at the first mismatch and ending just before a trailing match (if
/// any), merged into a single conflict if that run has both master and slave messages.
pub open spec fn enforced(a: Seq<MergeAnalysisSection>) -> Seq<MergeAnalysisSection> {
    if a.len() <= 1 || all_match(a) {
        a
    } else {
        let start = first_non_match(a);
        let end = merge_end(a);
        let mid = a.subrange(start, end);
        match (first_master_in(mid), last_master_in(mid), first_slave_in(mid), last_slave_in(mid)) {
            (Some(fm), Some(lm), Some(fs), Some(ls)) => a.subrange(0, start) + seq![
                MergeAnalysisSection::Conflict(MergeAnalysisSectionConflict {
                    first_master_msg_id: fm,
                    last_master_msg_id: lm,
                    first_slave_msg_id: fs,
                    last_slave_msg_id: ls,
                }),
            ] + a.subrange(end, a.len() as int),
            _ => a,
        }
    }
}

proof fn lemma_first_non_match(a: Seq<MergeAnalysisSection>)
    ensures
        0 <= first_non_match(a) <= a.len(),
        forall|k: int| 0 <= k < first_non_match(a) ==> is_match(#[trigger] a[k]),
        first_non_match(a) < a.len() ==> !is_match(a[first_non_match(a)]),
    decreases a.len(),
{
    if a.len() > 0 && is_match(a[0]) {
        lemma_first_non_match(a.drop_first());
        assert forall|k: int| 0 <= k < first_non_match(a) implies is_match(#[trigger] a[k]) by {
            if k > 0 {
                assert(a[k] == a.drop_first()[k - 1]);
            }
        }
    }
}

fn section_is_match(s: &MergeAnalysisSection) -> (r: bool)
    ensures
        r == is_match(*s),
{
    match s {
        MergeAnalysisSection::Match(_) => true,
        _ => false,
    }
}

/// Everything starting at first mismatch and ending just before trailing match (if any) is
/// merged into a single conflict if possible, see [`enforced`].
pub fn enforce_conflicts(analysis: Vec<MergeAnalysisSection>) -> (r: Vec<MergeAnalysisSection>)
    ensures
        r@ == enforced(analysis@),
{
    let n = analysis.len();
    if n <= 1 {
        return analysis;
    }
    let mut start: usize = 0;
    while start < n && section_is_match(&analysis[start])
        invariant
            n == analysis@.len(),
            0 <= start <= n,
            forall|k: int| 0 <= k < start ==> is_match(#[trigger] analysis@[k]),
        decreases n - start,
    {
        start = start + 1;
    }
    proof {
        lemma_first_non_match(analysis@);
        if start < first_non_match(analysis@) {
            assert(is_match(analysis@[start as int]));
        }
        if first_non_match(analysis@) < start {
            assert(is_match(analysis@[first_non_match(analysis@)]));
        }
        assert(start == first_non_match(analysis@));
    }
    if start == n {
        assert(all_match(analysis@));
        return analysis;
    }
    let end: usize = if section_is_match(&analysis[n - 1]) { n - 1 } else { n };
    let ghost mid = analysis@.subrange(start as int, end as int);

    let mut first_master_msg_id: Option<MasterInternalId> = None;
    let mut last_master_msg_id: Option<MasterInternalId> = None;
    let mut first_slave_msg_id: Option<SlaveInternalId> = None;
    let mut last_slave_msg_id: Option<SlaveInternalId> = None;
    let mut idx: usize = start;
    while idx < end
        invariant
            n == analysis@.len(),
            start <= idx <= end <= n,
            mid == analysis@.subrange(start as int, end as int),
            first_master_msg_id == first_master_in(analysis@.subrange(start as int, idx as int)),
            last_master_msg_id == last_master_in(analysis@.subrange(start as int, idx as int)),
            first_slave_msg_id == first_slave_in(analysis@.subrange(start as int, idx as int)),
            last_slave_msg_id == last_slave_in(analysis@.subrange(start as int, idx as int)),
        decreases end - idx,
    {
        proof {
            let pre = analysis@.subrange(start as int, idx as int);
            let post = analysis@.subrange(start as int, idx as int + 1);
            assert(post.drop_last() =~= pre);
            assert(post.last() == analysis@[idx as int]);
        }
        match &analysis[idx] {
            MergeAnalysisSection::Match(v) => {
                if first_master_msg_id.is_none() {
                    first_master_msg_id = Some(v.first_master_msg_id);
                }
                last_master_msg_id = Some(v.last_master_msg_id);
                if first_slave_msg_id.is_none() {
                    first_slave_msg_id = Some(v.first_slave_msg_id);
                }
                last_slave_msg_id = Some(v.last_slave_msg_id);
            },
            MergeAnalysisSection::Retention(v) => {
                if first_master_msg_id.is_none() {
                    first_master_msg_id = Some(v.first_master_msg_id);
                }
                last_master_msg_id = Some(v.last_master_msg_id);
            },
            MergeAnalysisSection::Addition(v) => {
                if first_slave_msg_id.is_none() {
                    first_slave_msg_id = Some(v.first_slave_msg_id);
                }
                last_slave_msg_id = Some(v.last_slave_msg_id);
            },
            MergeAnalysisSection::Conflict(v) => {
                if first_master_msg_id.is_none() {
                    first_master_msg_id = Some(v.first_master_msg_id);
                }
                last_master_msg_id = Some(v.last_master_msg_id);
                if first_slave_msg_id.is_none() {
                    first_slave_msg_id = Some(v.first_slave_msg_id);
                }
                last_slave_msg_id = Some(v.last_slave_msg_id);
            },
        }
        idx = idx + 1;
    }
    proof {
        assert(!all_match(analysis@));
    }
    match (first_master_msg_id, last_master_msg_id, first_slave_msg_id, last_slave_msg_id) {
        (Some(first_master_msg_id), Some(last_master_msg_id), Some(first_slave_msg_id), Some(last_slave_msg_id)) => {
            let conflict = MergeAnalysisSection::Conflict(MergeAnalysisSectionConflict {
                first_master_msg_id,
                last_master_msg_id,
                first_slave_msg_id,
                last_slave_msg_id,
            });
            let mut result: Vec<MergeAnalysisSection> = Vec::new();
            let mut k: usize = 0;
            while k < start
                invariant
                    n == analysis@.len(),
                    0 <= k <= start < n,
                    result@ == analysis@.subrange(0, k as int),
                decreases start - k,
            {
                result.push(analysis[k]);
                k = k + 1;
                proof {
                    assert(result@ =~= analysis@.subrange(0, k as int));
                }
            }
            result.push(conflict);
            let mut k2: usize = end;
            while k2 < n
                invariant
                    n == analysis@.len(),
                    start < end <= k2 <= n,
                    result@ == analysis@.subrange(0, start as int) + seq![conflict] + analysis@.subrange(end as int, k2 as int),
                decreases n - k2,
            {
                result.push(analysis[k2]);
                k2 = k2 + 1;
                proof {
                    assert(result@ =~= analysis@.subrange(0, start as int) + seq![conflict] + analysis@.subrange(end as int, k2 as int));
                }
            }
            result
        },
        _ => analysis,
    }
}

} // verus!

verus! {

proof fn lemma_first_non_match_at(a: Seq<MergeAnalysisSection>, p: int)
    requires
        0 <= p < a.len(),
        forall|k: int| 0 <= k < p ==> is_match(#[trigger] a[k]),
        !is_match(a[p]),
    ensures
        first_non_match(a) == p,
{
    lemma_first_non_match(a);
    if first_non_match(a) < p {
        assert(is_match(a[first_non_match(a)]));
    }
    if p < first_non_match(a) {
        assert(is_match(a[p]));
    }
}

/// Forcing conflicts twice is the same as forcing them once.
pub proof fn law_enforce_conflicts_idempotent(a: Seq<MergeAnalysisSection>)
    ensures
        enforced(enforced(a)) == enforced(a),
{
    if a.len() <= 1 || all_match(a) {
    } else {
        let start = first_non_match(a);
        let end = merge_end(a);
        let mid = a.subrange(start, end);
        lemma_first_non_match(a);
        assert(start < a.len()) by {
            if start == a.len() {
                assert(all_match(a));
            }
        }
        assert(start < end) by {
            if is_match(a.last()) {
                assert(a.last() == a[a.len() - 1]);
                if start == a.len() - 1 {
                    assert(!is_match(a[start]));
                }
            }
        }
        match (first_master_in(mid), last_master_in(mid), first_slave_in(mid), last_slave_in(mid)) {
            (Some(fm), Some(lm), Some(fs), Some(ls)) => {
                let c = MergeAnalysisSection::Conflict(MergeAnalysisSectionConflict {
                    first_master_msg_id: fm,
                    last_master_msg_id: lm,
                    first_slave_msg_id: fs,
                    last_slave_msg_id: ls,
                });
                let pre = a.subrange(0, start);
                let suf = a.subrange(end, a.len() as int);
                let b = pre + seq![c] + suf;
                assert(enforced(a) == b);
                assert(b[start] == c);
                if b.len() <= 1 {
                } else {
                    assert forall|k: int| 0 <= k < start implies is_match(#[trigger] b[k]) by {
                        assert(b[k] == a[k]);
                    }
                    lemma_first_non_match_at(b, start);
                    assert(!all_match(b)) by {
                        assert(!is_match(b[start]));
                    }
                    if is_match(a.last()) {
                        assert(suf.len() == 1);
                        assert(b.last() == a.last());
                        assert(merge_end(b) == start + 1);
                    } else {
                        assert(suf.len() == 0);
                        assert(b.last() == c);
                        assert(merge_end(b) == start + 1);
                    }
                    let mid2 = b.subrange(start, start + 1);
                    assert(mid2 =~= seq![c]);
                    assert(mid2.drop_last() =~= Seq::<MergeAnalysisSection>::empty());
                    assert(b.subrange(0, start) =~= pre);
                    assert(b.subrange(start + 1, b.len() as int) =~= suf);
                    assert(first_master_in(mid2.drop_last()) is None);
                    assert(first_slave_in(mid2.drop_last()) is None);
                    assert(mid2.last() == c);
                    assert(first_master_in(mid2) == Some(fm));
                    assert(last_master_in(mid2) == Some(lm));
                    assert(first_slave_in(mid2) == Some(fs));
                    assert(last_slave_in(mid2) == Some(ls));
                    assert(enforced(b) =~= b);
                }
            },
            _ => {},
        }
    }
}

/// After forcing conflicts, at most one section is not a match: either nothing was merged
/// (the sections are unchanged), or every section but the merged conflict is a match.
pub proof fn law_enforce_conflicts_single_conflict(a: Seq<MergeAnalysisSection>)
    ensures
        enforced(a) == a || (forall|k: int|
            0 <= k < enforced(a).len() && k != first_non_match(a) ==> is_match(#[trigger] enforced(a)[k])),
        enforced(a) != a ==> enforced(a)[first_non_match(a)] is Conflict,
{
    if a.len() <= 1 || all_match(a) {
    } else {
        let start = first_non_match(a);
        let end = merge_end(a);
        let mid = a.subrange(start, end);
        lemma_first_non_match(a);
        match (first_master_in(mid), last_master_in(mid), first_slave_in(mid), last_slave_in(mid)) {
            (Some(fm), Some(lm), Some(fs), Some(ls)) => {
                let b = enforced(a);
                assert forall|k: int| 0 <= k < b.len() && k != start implies is_match(#[trigger] b[k]) by {
                    if k < start {
                        assert(b[k] == a[k]);
                    } else {
                        assert(is_match(a.last()));
                        assert(b[k] == a[a.len() - 1]);
                    }
                }
            },
            _ => {},
        }
    }
}

} // verus!
