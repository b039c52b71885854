//! Merge analysis of two snapshots of one chat, on their messages.
use vstd::prelude::*;
use crate::ids::{MasterInternalId, SlaveInternalId, NO_INTERNAL_ID};
use crate::model::{Message, MessageTyped, MessageServiceValue, Content, ContentPhoto, ChatWithDetails};
use crate::files::{DatasetRoot, is_absolute_path, join_path};
use crate::facts::Facts;
use crate::numbers::{decimal, i64_to_decimal};
use crate::message_utils::{content_rel_path, content_path_file};
use crate::equality::{EqSide, ComparisonError, outcome, rtes_comparable_eq, rtes_comparable_equal, contents_pe,
    contents_practically_equal, message_pe_at, message_practically_equals_at, comparable_messages};
use crate::merge::{MergeAnalysisSection, MergeAnalysisSectionMatch, MergeAnalysisSectionRetention,
    MergeAnalysisSectionAddition, MergeAnalysisSectionConflict, SectionKind, Sec, InProgress, MatchFn, OrderFn,
    analysis_run, head_order, run_measure, time_shift_code, comparison_failed_code};

verus! {

/// Whether some content has a file that exists.
pub open spec fn contents_have_file(cs: Seq<Content>, side: EqSide) -> bool {
    exists|k: int|
        0 <= k < cs.len() && (#[trigger] content_path_file(cs[k], side.ds_root.0@) matches Some(p)
            && side.facts.files.meta_of(p) is Some)
}

/// Whether a photo has a file that exists.
pub open spec fn photo_has_file(ph: ContentPhoto, side: EqSide) -> bool {
    ph.path_option matches Some(p) && side.facts.files.meta_of(join_path(side.ds_root.0@, p@)) is Some
}

/// Equality test that treats master and slave messages as equal if either of them lacks
/// content files - unless they both have them and they mismatch. Edit time and reply target
/// of regular messages are ignored, and italic, underlined and struck-through text is taken
/// as bold. The master message is taken with the given timestamp.
pub open spec fn no_mismatch_eq(mm: Message, mts: i64, s1: EqSide, sm: Message, s2: EqSide) -> Option<bool> {
    match (mm.typed.unwrap(), sm.typed.unwrap()) {
        (MessageTyped::Regular(r1), MessageTyped::Regular(r2)) => {
            if !(mts == sm.timestamp && mm.from_id == sm.from_id && rtes_comparable_eq(mm.text@, sm.text@)
                && r1.is_deleted == r2.is_deleted) {
                Some(false)
            } else if !contents_have_file(r1.contents@, s1) || !contents_have_file(r2.contents@, s2) {
                Some(true)
            } else {
                contents_pe(r1.contents@, s1, r2.contents@, s2)
            }
        },
        (MessageTyped::Service(v1), MessageTyped::Service(v2)) => match (v1.sealed_value_optional, v2.sealed_value_optional) {
            (Some(MessageServiceValue::GroupEditPhoto { photo: p1 }), Some(MessageServiceValue::GroupEditPhoto { photo: p2 })) =>
                if !photo_has_file(p1, s1) || !photo_has_file(p2, s2) {
                    Some(true)
                } else {
                    message_pe_at(mm, mts, s1, sm, s2)
                },
            (Some(MessageServiceValue::SuggestProfilePhoto { photo: p1 }), Some(MessageServiceValue::SuggestProfilePhoto { photo: p2 })) =>
                if !photo_has_file(p1, s1) || !photo_has_file(p2, s2) {
                    Some(true)
                } else {
                    message_pe_at(mm, mts, s1, sm, s2)
                },
            _ => message_pe_at(mm, mts, s1, sm, s2),
        },
        _ => message_pe_at(mm, mts, s1, sm, s2),
    }
}

/// Whether every file path of a message is relative.
pub open spec fn message_paths_relative(m: Message) -> bool {
    match m.typed {
        Some(MessageTyped::Regular(r)) => forall|k: int|
            0 <= k < r.contents@.len() ==> (#[trigger] content_rel_path(r.contents@[k]) matches Some(p) ==> !is_absolute_path(p)),
        Some(MessageTyped::Service(s)) => match s.sealed_value_optional {
            Some(MessageServiceValue::GroupEditPhoto { photo }) => photo.path_option matches Some(p) ==> !is_absolute_path(p@),
            Some(MessageServiceValue::SuggestProfilePhoto { photo }) => photo.path_option matches Some(p) ==> !is_absolute_path(p@),
            _ => true,
        },
        None => true,
    }
}

/// Whether a message can take part in the analysis: it has its kind-specific part, an
/// internal ID, and only relative file paths.
pub open spec fn analyzable(m: Message) -> bool {
    &&& m.typed is Some
    &&& m.internal_id != NO_INTERNAL_ID
    &&& message_paths_relative(m)
}

fn is_absolute(p: &str) -> (r: bool)
    ensures
        r == is_absolute_path(p@),
{
    p.unicode_len() > 0 && p.get_char(0) == '/'
}

fn photo_path_relative(ph: &ContentPhoto) -> (r: bool)
    ensures
        r == (ph.path_option matches Some(p) ==> !is_absolute_path(p@)),
{
    match &ph.path_option {
        Some(p) => !is_absolute(p.as_str()),
        None => true,
    }
}

/// Whether a message can take part in the analysis, see [`analyzable`].
pub fn is_analyzable(m: &Message) -> (r: bool)
    ensures
        r == analyzable(*m),
{
    if m.internal_id == NO_INTERNAL_ID {
        return false;
    }
    match &m.typed {
        None => false,
        Some(MessageTyped::Regular(reg)) => {
            let n = reg.contents.len();
            let mut k: usize = 0;
            while k < n
                invariant
                    m.typed == Some(MessageTyped::Regular(*reg)),
                    n == reg.contents@.len(),
                    k <= n,
                    forall|j: int| 0 <= j < k ==> (#[trigger] content_rel_path(reg.contents@[j]) matches Some(p) ==> !is_absolute_path(p)),
                decreases n - k,
            {
                match reg.contents[k].rel_path() {
                    Some(p) => {
                        if is_absolute(p.as_str()) {
                            proof {
                                assert(m.typed == Some(MessageTyped::Regular(*reg)));
                                assert(content_rel_path(reg.contents@[k as int]) == Some(p@));
                                assert(is_absolute_path(p@));
                            }
                            return false;
                        }
                    },
                    None => {},
                }
                k = k + 1;
            }
            true
        },
        Some(MessageTyped::Service(svc)) => match &svc.sealed_value_optional {
            Some(MessageServiceValue::GroupEditPhoto { photo }) => photo_path_relative(photo),
            Some(MessageServiceValue::SuggestProfilePhoto { photo }) => photo_path_relative(photo),
            _ => true,
        },
    }
}

/// Whether every message can take part in the analysis.
pub fn all_messages_analyzable(ms: &Vec<Message>) -> (r: bool)
    ensures
        r == all_analyzable(ms@),
{
    let n = ms.len();
    let mut k: usize = 0;
    while k < n
        invariant
            n == ms@.len(),
            k <= n,
            forall|j: int| 0 <= j < k ==> analyzable(#[trigger] ms@[j]),
        decreases n - k,
    {
        if !is_analyzable(&ms[k]) {
            return false;
        }
        k = k + 1;
    }
    true
}

fn has_some_content(cs: &Vec<Content>, side: &EqSide) -> (r: bool)
    requires
        forall|k: int| 0 <= k < cs@.len() ==> (#[trigger] content_rel_path(cs@[k]) matches Some(p) ==> !is_absolute_path(p)),
    ensures
        r == contents_have_file(cs@, *side),
{
    let mut i: usize = 0;
    while i < cs.len()
        invariant
            0 <= i <= cs@.len(),
            forall|k: int| 0 <= k < cs@.len() ==> (#[trigger] content_rel_path(cs@[k]) matches Some(p) ==> !is_absolute_path(p)),
            forall|k: int| 0 <= k < i ==> !(#[trigger] content_path_file(cs@[k], side.ds_root.0@) matches Some(p)
                && side.facts.files.meta_of(p) is Some),
        decreases cs@.len() - i,
    {
        proof {
            assert(content_rel_path(cs@[i as int]) matches Some(p) ==> !is_absolute_path(p));
        }
        match cs[i].path_file_option(side.ds_root) {
            Some(p) => {
                proof {
                    assert(content_path_file(cs@[i as int], side.ds_root.0@) == Some(p@));
                }
                if side.facts.files.file_exists(p.as_str()) {
                    return true;
                }
            },
            None => {
                proof {
                    assert(content_path_file(cs@[i as int], side.ds_root.0@) is None);
                }
            },
        }
        i = i + 1;
    }
    false
}

fn photo_has_content(ph: &ContentPhoto, side: &EqSide) -> (r: bool)
    requires
        ph.path_option matches Some(p) ==> !is_absolute_path(p@),
    ensures
        r == photo_has_file(*ph, *side),
{
    match &ph.path_option {
        Some(p) => {
            let abs = side.ds_root.to_absolute(p.as_str());
            side.facts.files.file_exists(abs.as_str())
        },
        None => false,
    }
}

/// See [`no_mismatch_eq`].
pub fn equals_with_no_mismatching_content(mm: &Message, mts: i64, s1: &EqSide, sm: &Message, s2: &EqSide) -> (r: Result<bool, ComparisonError>)
    requires
        analyzable(*mm),
        analyzable(*sm),
        s1.cwd is Some,
        s2.cwd is Some,
    ensures
        outcome(r) == no_mismatch_eq(*mm, mts, *s1, *sm, *s2),
{
    proof {
        assert(comparable_messages(*mm, *s1, *sm, *s2));
    }
    match (mm.typed(), sm.typed()) {
        (MessageTyped::Regular(r1), MessageTyped::Regular(r2)) => {
            if !(mts == sm.timestamp && mm.from_id == sm.from_id && rtes_comparable_equal(&mm.text, &sm.text)
                && r1.is_deleted == r2.is_deleted) {
                return Ok(false);
            }
            if !has_some_content(&r1.contents, s1) || !has_some_content(&r2.contents, s2) {
                return Ok(true);
            }
            contents_practically_equal(&r1.contents, s1, &r2.contents, s2)
        },
        (MessageTyped::Service(v1), MessageTyped::Service(v2)) => match (&v1.sealed_value_optional, &v2.sealed_value_optional) {
            (Some(MessageServiceValue::GroupEditPhoto { photo: p1 }), Some(MessageServiceValue::GroupEditPhoto { photo: p2 })) => {
                if !photo_has_content(p1, s1) || !photo_has_content(p2, s2) {
                    return Ok(true);
                }
                message_practically_equals_at(mm, mts, s1, sm, s2)
            },
            (Some(MessageServiceValue::SuggestProfilePhoto { photo: p1 }), Some(MessageServiceValue::SuggestProfilePhoto { photo: p2 })) => {
                if !photo_has_content(p1, s1) || !photo_has_content(p2, s2) {
                    return Ok(true);
                }
                message_practically_equals_at(mm, mts, s1, sm, s2)
            },
            _ => message_practically_equals_at(mm, mts, s1, sm, s2),
        },
        _ => message_practically_equals_at(mm, mts, s1, sm, s2),
    }
}

/// Order of two messages: by timestamp, then equal if their searchable strings are, then by
/// source ID if both have one; 2 when they cannot be ordered.
pub open spec fn message_order(mm: Message, sm: Message) -> int {
    if mm.timestamp != sm.timestamp {
        if mm.timestamp < sm.timestamp { -1 } else { 1 }
    } else if mm.searchable_string@ == sm.searchable_string@ {
        0
    } else {
        match (mm.source_id_option, sm.source_id_option) {
            (Some(a), Some(b)) => if a < b { -1 } else if a == b { 0 } else { 1 },
            _ => 2,
        }
    }
}

/// See [`message_order`]; `None` when the messages cannot be ordered.
fn order_master_slave(mm: &Message, sm: &Message) -> (r: Option<i8>)
    ensures
        match r {
            Some(c) => c as int == message_order(*mm, *sm) && c as int != 2,
            None => message_order(*mm, *sm) == 2,
        },
{
    if mm.timestamp != sm.timestamp {
        if mm.timestamp < sm.timestamp { Some(-1) } else { Some(1) }
    } else if mm.searchable_string == sm.searchable_string {
        Some(0)
    } else {
        match (mm.source_id_option, sm.source_id_option) {
            (Some(a), Some(b)) => if a < b { Some(-1) } else if a == b { Some(0) } else { Some(1) },
            _ => None,
        }
    }
}

pub open spec fn mt_of(m: Seq<Message>, s: Seq<Message>, s1: EqSide, s2: EqSide) -> MatchFn {
    |i: int, j: int| no_mismatch_eq(m[i], m[i].timestamp, s1, s[j], s2)
}

pub open spec fn tsm_of(m: Seq<Message>, s: Seq<Message>, s1: EqSide, s2: EqSide) -> MatchFn {
    |i: int, j: int| no_mismatch_eq(m[i], s[j].timestamp, s1, s[j], s2)
}

pub open spec fn sid_of(m: Seq<Message>, s: Seq<Message>) -> spec_fn(int, int) -> bool {
    |i: int, j: int| m[i].source_id_option is Some && m[i].source_id_option == s[j].source_id_option
}

pub open spec fn ord_of(m: Seq<Message>, s: Seq<Message>) -> OrderFn {
    |i: int, j: int| message_order(m[i], s[j])
}

/// The analysis of two message streams, see [`analysis_run`].
pub open spec fn analysis_of(m: Seq<Message>, s: Seq<Message>, s1: EqSide, s2: EqSide) -> Option<Result<Seq<Sec>, (int, int, int)>> {
    analysis_run(
        m.len() as int,
        s.len() as int,
        mt_of(m, s, s1, s2),
        tsm_of(m, s, s1, s2),
        sid_of(m, s),
        ord_of(m, s),
        0,
        0,
        None,
        Seq::empty(),
    )
}

/// A section, by the internal IDs of its first and last messages.
pub open spec fn to_section(m: Seq<Message>, s: Seq<Message>, sec: Sec) -> MergeAnalysisSection {
    let (k, mf, mto, sf, sto) = sec;
    match k {
        SectionKind::Match => MergeAnalysisSection::Match(MergeAnalysisSectionMatch {
            first_master_msg_id: MasterInternalId(m[mf].internal_id),
            last_master_msg_id: MasterInternalId(m[mto - 1].internal_id),
            first_slave_msg_id: SlaveInternalId(s[sf].internal_id),
            last_slave_msg_id: SlaveInternalId(s[sto - 1].internal_id),
        }),
        SectionKind::Retention => MergeAnalysisSection::Retention(MergeAnalysisSectionRetention {
            first_master_msg_id: MasterInternalId(m[mf].internal_id),
            last_master_msg_id: MasterInternalId(m[mto - 1].internal_id),
        }),
        SectionKind::Addition => MergeAnalysisSection::Addition(MergeAnalysisSectionAddition {
            first_slave_msg_id: SlaveInternalId(s[sf].internal_id),
            last_slave_msg_id: SlaveInternalId(s[sto - 1].internal_id),
        }),
        SectionKind::Conflict => MergeAnalysisSection::Conflict(MergeAnalysisSectionConflict {
            first_master_msg_id: MasterInternalId(m[mf].internal_id),
            last_master_msg_id: MasterInternalId(m[mto - 1].internal_id),
            first_slave_msg_id: SlaveInternalId(s[sf].internal_id),
            last_slave_msg_id: SlaveInternalId(s[sto - 1].internal_id),
        }),
    }
}

pub open spec fn to_sections(m: Seq<Message>, s: Seq<Message>, secs: Seq<Sec>) -> Seq<MergeAnalysisSection> {
    secs.map_values(|sec: Sec| to_section(m, s, sec))
}

/// Why the analysis stopped.
#[derive(Clone, Copy, Debug, PartialEq, Eq, Structural)]
pub enum AnalysisError {
    /// A message appears in both snapshots (same source ID) shifted in time: the datasets
    /// were exported in different time zones.
    TimeShift { master_timestamp: i64, slave_timestamp: i64 },
    /// Two messages could not be compared.
    Comparison(ComparisonError),
}

/// Text of a time shift error: whether the slave is ahead of or behind the master, by how
/// many seconds and whole hours.
pub open spec fn time_shift_text(master: i64, slave: i64) -> Seq<char> {
    let d = slave - master;
    let word = if d > 0 { "ahead of"@ } else { "behind"@ };
    let sec = if d > 0 { d } else { -d };
    "Time shift detected between datasets! Slave is "@ + word + " master by "@ + decimal(sec) + " sec ("@
        + decimal(sec / 3600) + " hrs)"@
}

/// Text of an analysis error.
pub open spec fn analysis_error_text(e: AnalysisError) -> Seq<char> {
    match e {
        AnalysisError::TimeShift { master_timestamp, slave_timestamp } => time_shift_text(master_timestamp, slave_timestamp),
        AnalysisError::Comparison(_) => "Coordinate is not a number"@,
    }
}

impl AnalysisError {
    /// The error as a message, see [`analysis_error_text`]. The shift between the two
    /// timestamps must fit the timestamps' type.
    pub fn message(&self) -> (r: String)
        requires
            *self matches AnalysisError::TimeShift { master_timestamp, slave_timestamp }
                ==> i64::MIN < slave_timestamp - master_timestamp <= i64::MAX,
        ensures
            r@ == analysis_error_text(*self),
    {
        match self {
            AnalysisError::TimeShift { master_timestamp, slave_timestamp } => {
                let d = *slave_timestamp - *master_timestamp;
                let (word, sec) = if d > 0 { ("ahead of", d) } else { ("behind", -d) };
                let mut r = "Time shift detected between datasets! Slave is ".to_owned();
                r.append(word);
                r.append(" master by ");
                r.append(i64_to_decimal(sec).as_str());
                r.append(" sec (");
                r.append(i64_to_decimal(sec / 3600).as_str());
                r.append(" hrs)");
                r
            },
            AnalysisError::Comparison(_) => "Coordinate is not a number".to_owned(),
        }
    }
}

/// The error for an error outcome of the analysis.
pub open spec fn to_error(m: Seq<Message>, s: Seq<Message>, e: (int, int, int)) -> AnalysisError {
    if e.0 == time_shift_code() {
        AnalysisError::TimeShift { master_timestamp: m[e.1].timestamp, slave_timestamp: s[e.2].timestamp }
    } else {
        AnalysisError::Comparison(ComparisonError::UnparsableCoordinate)
    }
}

/// The outcome of the analysis as the analyzer returns it (`None` where it cannot go on).
pub open spec fn analysis_result(m: Seq<Message>, s: Seq<Message>, s1: EqSide, s2: EqSide) -> Option<Result<Seq<MergeAnalysisSection>, AnalysisError>> {
    match analysis_of(m, s, s1, s2) {
        Some(Ok(secs)) => Some(Ok(to_sections(m, s, secs))),
        Some(Err(e)) => Some(Err(to_error(m, s, e))),
        None => None,
    }
}

pub open spec fn all_analyzable(m: Seq<Message>) -> bool {
    forall|k: int| 0 <= k < m.len() ==> analyzable(#[trigger] m[k])
}

/// Sections of the two streams, walked side by side; `None` where two heads cannot be ordered
/// (same time, different text, no source IDs to tell them apart).
fn analyze_streams(m: &Vec<Message>, s1: &EqSide, s: &Vec<Message>, s2: &EqSide) -> (r: Option<Result<Vec<MergeAnalysisSection>, AnalysisError>>)
    requires
        all_analyzable(m@),
        all_analyzable(s@),
        s1.cwd is Some,
        s2.cwd is Some,
    ensures
        match r {
            Some(Ok(v)) => analysis_result(m@, s@, *s1, *s2) == Some(Ok::<Seq<MergeAnalysisSection>, AnalysisError>(v@)),
            Some(Err(e)) => analysis_result(m@, s@, *s1, *s2) == Some(Err::<Seq<MergeAnalysisSection>, AnalysisError>(e)),
            None => analysis_result(m@, s@, *s1, *s2) is None,
        },
{
    let ghost ml = m@.len() as int;
    let ghost sl = s@.len() as int;
    let ghost mt = mt_of(m@, s@, *s1, *s2);
    let ghost tsm = tsm_of(m@, s@, *s1, *s2);
    let ghost sid = sid_of(m@, s@);
    let ghost ord = ord_of(m@, s@);
    let ghost target = analysis_of(m@, s@, *s1, *s2);

    let mut i: usize = 0;
    let mut j: usize = 0;
    let mut st: Option<(SectionKind, usize, usize)> = None;
    let mut acc: Vec<MergeAnalysisSection> = Vec::new();
    let ghost mut acc_spec: Seq<Sec> = Seq::empty();

    loop
        invariant
            0 <= i <= m@.len(),
            0 <= j <= s@.len(),
            ml == m@.len(),
            sl == s@.len(),
            mt == mt_of(m@, s@, *s1, *s2),
            tsm == tsm_of(m@, s@, *s1, *s2),
            sid == sid_of(m@, s@),
            ord == ord_of(m@, s@),
            all_analyzable(m@),
            all_analyzable(s@),
            s1.cwd is Some,
            s2.cwd is Some,
            target == analysis_of(m@, s@, *s1, *s2),
            target == analysis_run(ml, sl, mt, tsm, sid, ord, i as int, j as int,
                match st { Some((k, mf, sf)) => Some((k, mf as int, sf as int)), None => None }, acc_spec),
            match st {
                Some((k, mf, sf)) => mf <= i && sf <= j && (k != SectionKind::Addition ==> mf < i)
                    && (k != SectionKind::Retention ==> sf < j),
                None => true,
            },
            acc@ == to_sections(m@, s@, acc_spec),
        decreases run_measure(m@.len() as int, s@.len() as int, i as int, j as int,
            match st { Some((k, mf, sf)) => Some((k, mf as int, sf as int)), None => None }),
    {
        let pm = i < m.len();
        let ps = j < s.len();
        match st {
            None => {
                if pm && ps {
                    let matched = match equals_with_no_mismatching_content(&m[i], m[i].timestamp, s1, &s[j], s2) {
                        Ok(b) => b,
                        Err(e) => return Some(Err(AnalysisError::Comparison(e))),
                    };
                    if matched {
                        st = Some((SectionKind::Match, i, j));
                        i = i + 1;
                        j = j + 1;
                        continue;
                    }
                    let same_src = match (m[i].source_id_option, s[j].source_id_option) {
                        (Some(a), Some(b)) => a == b,
                        _ => false,
                    };
                    if same_src {
                        let shifted = match equals_with_no_mismatching_content(&m[i], s[j].timestamp, s1, &s[j], s2) {
                            Ok(b) => b,
                            Err(e) => return Some(Err(AnalysisError::Comparison(e))),
                        };
                        if shifted {
                            return Some(Err(AnalysisError::TimeShift {
                                master_timestamp: m[i].timestamp,
                                slave_timestamp: s[j].timestamp,
                            }));
                        }
                        st = Some((SectionKind::Conflict, i, j));
                        i = i + 1;
                        j = j + 1;
                        continue;
                    }
                }
                let c: i8 = if pm && ps {
                    match order_master_slave(&m[i], &s[j]) {
                        Some(c) => c,
                        None => return None,
                    }
                } else if !pm && !ps {
                    0
                } else if !pm {
                    1
                } else {
                    -1
                };
                if ps && c == 1 {
                    st = Some((SectionKind::Addition, i, j));
                    j = j + 1;
                } else if pm && c == -1 {
                    st = Some((SectionKind::Retention, i, j));
                    i = i + 1;
                } else if !pm && !ps {
                    return Some(Ok(acc));
                } else {
                    return None;
                }
            },
            Some((k, mf, sf)) => {
                let advance: bool = match k {
                    SectionKind::Match => {
                        if pm && ps {
                            match equals_with_no_mismatching_content(&m[i], m[i].timestamp, s1, &s[j], s2) {
                                Ok(b) => b,
                                Err(e) => return Some(Err(AnalysisError::Comparison(e))),
                            }
                        } else {
                            false
                        }
                    },
                    SectionKind::Conflict => {
                        if pm && ps {
                            match equals_with_no_mismatching_content(&m[i], m[i].timestamp, s1, &s[j], s2) {
                                Ok(b) => !b,
                                Err(e) => return Some(Err(AnalysisError::Comparison(e))),
                            }
                        } else {
                            false
                        }
                    },
                    SectionKind::Addition => {
                        if ps {
                            let c: i8 = if pm {
                                match order_master_slave(&m[i], &s[j]) {
                                    Some(c) => c,
                                    None => return None,
                                }
                            } else {
                                1
                            };
                            c == 1
                        } else {
                            false
                        }
                    },
                    SectionKind::Retention => {
                        if pm {
                            let c: i8 = if ps {
                                match order_master_slave(&m[i], &s[j]) {
                                    Some(c) => c,
                                    None => return None,
                                }
                            } else {
                                -1
                            };
                            c == -1
                        } else {
                            false
                        }
                    },
                };
                if advance {
                    match k {
                        SectionKind::Match => {
                            i = i + 1;
                            j = j + 1;
                        },
                        SectionKind::Conflict => {
                            i = i + 1;
                            j = j + 1;
                        },
                        SectionKind::Addition => {
                            j = j + 1;
                        },
                        SectionKind::Retention => {
                            i = i + 1;
                        },
                    }
                } else {
                    let section = make_section(m, s, k, mf, i, sf, j);
                    proof {
                        acc_spec = acc_spec.push((k, mf as int, i as int, sf as int, j as int));
                    }
                    acc.push(section);
                    proof {
                        assert(acc@ =~= to_sections(m@, s@, acc_spec));
                    }
                    st = None;
                }
            },
        }
    }
}

/// The section of the given kind spanning master messages `[mf, mto)` and slave messages `[sf, sto)`.
fn make_section(m: &Vec<Message>, s: &Vec<Message>, k: SectionKind, mf: usize, mto: usize, sf: usize, sto: usize) -> (r: MergeAnalysisSection)
    requires
        mf <= mto <= m@.len(),
        sf <= sto <= s@.len(),
        k != SectionKind::Addition ==> mf < mto,
        k != SectionKind::Retention ==> sf < sto,
    ensures
        r == to_section(m@, s@, (k, mf as int, mto as int, sf as int, sto as int)),
{
    match k {
        SectionKind::Match => MergeAnalysisSection::Match(MergeAnalysisSectionMatch {
            first_master_msg_id: MasterInternalId(m[mf].internal_id),
            last_master_msg_id: MasterInternalId(m[mto - 1].internal_id),
            first_slave_msg_id: SlaveInternalId(s[sf].internal_id),
            last_slave_msg_id: SlaveInternalId(s[sto - 1].internal_id),
        }),
        SectionKind::Retention => MergeAnalysisSection::Retention(MergeAnalysisSectionRetention {
            first_master_msg_id: MasterInternalId(m[mf].internal_id),
            last_master_msg_id: MasterInternalId(m[mto - 1].internal_id),
        }),
        SectionKind::Addition => MergeAnalysisSection::Addition(MergeAnalysisSectionAddition {
            first_slave_msg_id: SlaveInternalId(s[sf].internal_id),
            last_slave_msg_id: SlaveInternalId(s[sto - 1].internal_id),
        }),
        SectionKind::Conflict => MergeAnalysisSection::Conflict(MergeAnalysisSectionConflict {
            first_master_msg_id: MasterInternalId(m[mf].internal_id),
            last_master_msg_id: MasterInternalId(m[mto - 1].internal_id),
            first_slave_msg_id: SlaveInternalId(s[sf].internal_id),
            last_slave_msg_id: SlaveInternalId(s[sto - 1].internal_id),
        }),
    }
}

} // verus!

verus! {

/// Analyzer of the differences between a master (older) and a slave (newer) dataset.
pub struct DatasetDiffAnalyzer<'a> {
    pub m_root: DatasetRoot,
    pub m_facts: &'a Facts,
    pub s_root: DatasetRoot,
    pub s_facts: &'a Facts,
}

/// The results of [`enforce_conflicts`](crate::merge::enforce_conflicts) when asked for,
/// the sections unchanged otherwise.
pub open spec fn maybe_enforced(secs: Seq<MergeAnalysisSection>, force_conflicts: bool) -> Seq<MergeAnalysisSection> {
    if force_conflicts {
        crate::merge::enforced(secs)
    } else {
        secs
    }
}

impl<'a> DatasetDiffAnalyzer<'a> {
    pub fn create(m_root: DatasetRoot, m_facts: &'a Facts, s_root: DatasetRoot, s_facts: &'a Facts) -> (r: Self)
        ensures
            r.m_root == m_root,
            r.m_facts == m_facts,
            r.s_root == s_root,
            r.s_facts == s_facts,
    {
        DatasetDiffAnalyzer { m_root, m_facts, s_root, s_facts }
    }

    pub open spec fn master_side(&self, cwd: &'a ChatWithDetails) -> EqSide<'_> {
        EqSide { ds_root: &self.m_root, cwd: Some(cwd), facts: self.m_facts }
    }

    pub open spec fn slave_side(&self, cwd: &'a ChatWithDetails) -> EqSide<'_> {
        EqSide { ds_root: &self.s_root, cwd: Some(cwd), facts: self.s_facts }
    }

    /// Analysis of the messages of a master chat and a slave chat, or `None` where two stream
    /// heads cannot be ordered (same time, different text, no source IDs to tell them apart).
    /// If `force_conflicts` is set, everything starting at first mismatch and ending just
    /// before trailing match (if any) is merged into a single conflict if possible.
    /// Note that conflicts can only be detected if the data source supports source IDs.
    pub fn analyze_checked(
        &self,
        master_cwd: &'a ChatWithDetails,
        master_msgs: &Vec<Message>,
        slave_cwd: &'a ChatWithDetails,
        slave_msgs: &Vec<Message>,
        force_conflicts: bool,
    ) -> (r: Option<Result<Vec<MergeAnalysisSection>, AnalysisError>>)
        requires
            all_analyzable(master_msgs@),
            all_analyzable(slave_msgs@),
        ensures
            match analysis_result(master_msgs@, slave_msgs@, self.master_side(master_cwd), self.slave_side(slave_cwd)) {
                Some(Ok(secs)) => r matches Some(Ok(v)) && v@ == maybe_enforced(secs, force_conflicts),
                Some(Err(e)) => r == Some(Err::<Vec<MergeAnalysisSection>, AnalysisError>(e)),
                None => r is None,
            },
    {
        let s1 = EqSide { ds_root: &self.m_root, cwd: Some(master_cwd), facts: self.m_facts };
        let s2 = EqSide { ds_root: &self.s_root, cwd: Some(slave_cwd), facts: self.s_facts };
        match analyze_streams(master_msgs, &s1, slave_msgs, &s2) {
            Some(Ok(sections)) => {
                if force_conflicts {
                    Some(Ok(crate::merge::enforce_conflicts(sections)))
                } else {
                    Some(Ok(sections))
                }
            },
            other => other,
        }
    }

    /// Analysis of the messages of a master chat and a slave chat, see [`Self::analyze_checked`];
    /// the two streams must be such that every pair of heads the analysis looks at can be ordered.
    pub fn analyze(
        &self,
        master_cwd: &'a ChatWithDetails,
        master_msgs: &Vec<Message>,
        slave_cwd: &'a ChatWithDetails,
        slave_msgs: &Vec<Message>,
        force_conflicts: bool,
    ) -> (r: Result<Vec<MergeAnalysisSection>, AnalysisError>)
        requires
            all_analyzable(master_msgs@),
            all_analyzable(slave_msgs@),
            analysis_result(master_msgs@, slave_msgs@, self.master_side(master_cwd), self.slave_side(slave_cwd)) is Some,
        ensures
            match analysis_result(master_msgs@, slave_msgs@, self.master_side(master_cwd), self.slave_side(slave_cwd)) {
                Some(Ok(secs)) => r matches Ok(v) && v@ == maybe_enforced(secs, force_conflicts),
                Some(Err(e)) => r == Err::<Vec<MergeAnalysisSection>, AnalysisError>(e),
                None => false,
            },
    {
        match self.analyze_checked(master_cwd, master_msgs, slave_cwd, slave_msgs, force_conflicts) {
            Some(r) => r,
            None => Ok(Vec::new()),
        }
    }
}

} // verus!

verus! {

/// Forcing conflicts only post-processes the analysis: where the analysis of two chats
/// succeeds, the forced analysis is the unforced one with its conflicts enforced (as
/// `enforce_conflicts` gives it), and where it fails, both fail alike.
pub proof fn law_forced_analysis_is_enforced(m: Seq<Message>, s: Seq<Message>, s1: EqSide, s2: EqSide)
    ensures
        match analysis_result(m, s, s1, s2) {
            Some(Ok(secs)) => maybe_enforced(secs, true) == crate::merge::enforced(maybe_enforced(secs, false)),
            _ => true,
        },
{
}

/// Every message of both chats is accounted for exactly once and in order by the analysis
/// of their message streams: the sections it ends with (before conflicts are forced) cut both
/// streams into consecutive runs from the first message to the last; matching sections pair
/// messages that match one to one, conflicting sections pair messages none of which match
/// and start with messages of the same source ID, retained master messages come before the
/// next slave message and added slave messages before the next master message.
pub proof fn law_analysis_accounts_for_every_message(m: Seq<Message>, s: Seq<Message>, s1: EqSide, s2: EqSide)
    requires
        analysis_of(m, s, s1, s2) matches Some(Ok(_)),
    ensures
        analysis_of(m, s, s1, s2) matches Some(Ok(secs)) && crate::merge::sections_valid(
            m.len() as int,
            s.len() as int,
            mt_of(m, s, s1, s2),
            sid_of(m, s),
            ord_of(m, s),
            secs,
            m.len() as int,
            s.len() as int,
        ),
{
    crate::merge::law_analysis_partitions_streams(
        m.len() as int,
        s.len() as int,
        mt_of(m, s, s1, s2),
        tsm_of(m, s, s1, s2),
        sid_of(m, s),
        ord_of(m, s),
    );
}

} // verus!
