use chat_history_manager::analyzer::{all_messages_analyzable, is_analyzable, AnalysisError, DatasetDiffAnalyzer};
use chat_history_manager::equality::ComparisonError;
use chat_history_manager::facts::Facts;
use chat_history_manager::files::{DatasetRoot, FileIndex};
use chat_history_manager::ids::{MasterInternalId, SlaveInternalId, UserId};
use chat_history_manager::merge::{
    enforce_conflicts, MergeAnalysisSection, MergeAnalysisSectionAddition, MergeAnalysisSectionConflict,
    MergeAnalysisSectionMatch, MergeAnalysisSectionRetention,
};
use chat_history_manager::model::{
    Chat, ChatWithDetails, Content, ContentPhoto, ContentValue, Message, MessageRegular, MessageTyped, PbUuid,
};
use chat_history_manager::rich_text::RichText;

fn regular_msg(internal_id: i64, source_id: i64, timestamp: i64, text: &str) -> Message {
    Message::new(
        internal_id,
        Some(source_id),
        timestamp,
        UserId(100),
        vec![RichText::make_plain(text.to_owned())],
        MessageTyped::Regular(MessageRegular {
            edit_timestamp_option: None,
            is_deleted: false,
            forward_from_name_option: None,
            reply_to_message_id_option: None,
            contents: vec![],
        }),
    )
}

fn cwd() -> ChatWithDetails {
    ChatWithDetails {
        chat: Chat {
            ds_uuid: PbUuid { value: "00000000-0000-0000-0000-000000000000".to_owned() },
            id: 1,
            name_option: Some("Chat".to_owned()),
            source_type: 0,
            tpe: 0,
            img_path_option: None,
            member_ids: vec![100],
            msg_count: 0,
            main_chat_id: None,
        },
        last_msg_option: None,
        members: vec![],
    }
}

fn no_facts() -> Facts {
    Facts { files: FileIndex { entries: vec![] }, numbers: vec![] }
}

fn m(id: i64) -> MasterInternalId {
    MasterInternalId(id)
}

fn s(id: i64) -> SlaveInternalId {
    SlaveInternalId(id)
}

fn run(master: &Vec<Message>, slave: &Vec<Message>, force_conflicts: bool) -> Result<Vec<MergeAnalysisSection>, AnalysisError> {
    let facts_m = no_facts();
    let facts_s = no_facts();
    let cwd_m = cwd();
    let cwd_s = cwd();
    let analyzer = DatasetDiffAnalyzer::create(
        DatasetRoot("/master".to_owned()),
        &facts_m,
        DatasetRoot("/slave".to_owned()),
        &facts_s,
    );
    analyzer.analyze_checked(&cwd_m, master, &cwd_s, slave, force_conflicts).expect("streams can be ordered")
}

#[test]
fn identical_chats_match_as_a_whole() {
    let master = vec![regular_msg(1, 101, 1000, "a"), regular_msg(2, 102, 1001, "b"), regular_msg(3, 103, 1002, "c")];
    let slave = vec![regular_msg(1, 101, 1000, "a"), regular_msg(2, 102, 1001, "b"), regular_msg(3, 103, 1002, "c")];
    let res = run(&master, &slave, false).unwrap();
    assert_eq!(
        res,
        vec![MergeAnalysisSection::Match(MergeAnalysisSectionMatch {
            first_master_msg_id: m(1),
            last_master_msg_id: m(3),
            first_slave_msg_id: s(1),
            last_slave_msg_id: s(3),
        })]
    );
}

#[test]
fn messages_only_in_slave_are_additions() {
    let master = vec![regular_msg(1, 101, 1000, "a"), regular_msg(2, 102, 1001, "b")];
    let slave = vec![
        regular_msg(1, 101, 1000, "a"),
        regular_msg(2, 102, 1001, "b"),
        regular_msg(3, 103, 1002, "c"),
        regular_msg(4, 104, 1003, "d"),
    ];
    let res = run(&master, &slave, false).unwrap();
    assert_eq!(
        res,
        vec![
            MergeAnalysisSection::Match(MergeAnalysisSectionMatch {
                first_master_msg_id: m(1),
                last_master_msg_id: m(2),
                first_slave_msg_id: s(1),
                last_slave_msg_id: s(2),
            }),
            MergeAnalysisSection::Addition(MergeAnalysisSectionAddition {
                first_slave_msg_id: s(3),
                last_slave_msg_id: s(4),
            }),
        ]
    );
}

#[test]
fn messages_only_in_master_are_retained() {
    let master = vec![regular_msg(1, 101, 1000, "a"), regular_msg(2, 102, 1001, "b"), regular_msg(3, 103, 1002, "c")];
    let slave = vec![regular_msg(1, 101, 1000, "a"), regular_msg(2, 103, 1002, "c")];
    let res = run(&master, &slave, false).unwrap();
    assert_eq!(
        res,
        vec![
            MergeAnalysisSection::Match(MergeAnalysisSectionMatch {
                first_master_msg_id: m(1),
                last_master_msg_id: m(1),
                first_slave_msg_id: s(1),
                last_slave_msg_id: s(1),
            }),
            MergeAnalysisSection::Retention(MergeAnalysisSectionRetention {
                first_master_msg_id: m(2),
                last_master_msg_id: m(2),
            }),
            MergeAnalysisSection::Match(MergeAnalysisSectionMatch {
                first_master_msg_id: m(3),
                last_master_msg_id: m(3),
                first_slave_msg_id: s(2),
                last_slave_msg_id: s(2),
            }),
        ]
    );
}

#[test]
fn changed_message_with_same_source_id_is_a_conflict() {
    let master = vec![regular_msg(1, 101, 1000, "a"), regular_msg(2, 102, 1001, "b"), regular_msg(3, 103, 1002, "c")];
    let slave = vec![regular_msg(1, 101, 1000, "a"), regular_msg(2, 102, 1001, "B!"), regular_msg(3, 103, 1002, "c")];
    let expected = vec![
        MergeAnalysisSection::Match(MergeAnalysisSectionMatch {
            first_master_msg_id: m(1),
            last_master_msg_id: m(1),
            first_slave_msg_id: s(1),
            last_slave_msg_id: s(1),
        }),
        MergeAnalysisSection::Conflict(MergeAnalysisSectionConflict {
            first_master_msg_id: m(2),
            last_master_msg_id: m(2),
            first_slave_msg_id: s(2),
            last_slave_msg_id: s(2),
        }),
        MergeAnalysisSection::Match(MergeAnalysisSectionMatch {
            first_master_msg_id: m(3),
            last_master_msg_id: m(3),
            first_slave_msg_id: s(3),
            last_slave_msg_id: s(3),
        }),
    ];
    assert_eq!(run(&master, &slave, false).unwrap(), expected);
    assert_eq!(run(&master, &slave, true).unwrap(), expected);
}

#[test]
fn shifted_time_is_reported() {
    let master = vec![regular_msg(1, 101, 1000, "a")];
    let slave = vec![regular_msg(1, 101, 4600, "a")];
    let res = run(&master, &slave, false);
    assert_eq!(res, Err(AnalysisError::TimeShift { master_timestamp: 1000, slave_timestamp: 4600 }));
    assert_eq!(
        res.unwrap_err().message(),
        "Time shift detected between datasets! Slave is ahead of master by 3600 sec (1 hrs)"
    );
}

#[test]
fn empty_chats_give_no_sections() {
    let res = run(&vec![], &vec![], false).unwrap();
    assert!(res.is_empty());
}

#[test]
fn enforcing_conflicts_merges_everything_between_the_first_mismatch_and_the_trailing_match() {
    let analysis = vec![
        MergeAnalysisSection::Match(MergeAnalysisSectionMatch {
            first_master_msg_id: m(1),
            last_master_msg_id: m(2),
            first_slave_msg_id: s(1),
            last_slave_msg_id: s(2),
        }),
        MergeAnalysisSection::Retention(MergeAnalysisSectionRetention { first_master_msg_id: m(3), last_master_msg_id: m(4) }),
        MergeAnalysisSection::Addition(MergeAnalysisSectionAddition { first_slave_msg_id: s(3), last_slave_msg_id: s(5) }),
        MergeAnalysisSection::Match(MergeAnalysisSectionMatch {
            first_master_msg_id: m(5),
            last_master_msg_id: m(6),
            first_slave_msg_id: s(6),
            last_slave_msg_id: s(7),
        }),
    ];
    let res = enforce_conflicts(analysis);
    assert_eq!(
        res,
        vec![
            MergeAnalysisSection::Match(MergeAnalysisSectionMatch {
                first_master_msg_id: m(1),
                last_master_msg_id: m(2),
                first_slave_msg_id: s(1),
                last_slave_msg_id: s(2),
            }),
            MergeAnalysisSection::Conflict(MergeAnalysisSectionConflict {
                first_master_msg_id: m(3),
                last_master_msg_id: m(4),
                first_slave_msg_id: s(3),
                last_slave_msg_id: s(5),
            }),
            MergeAnalysisSection::Match(MergeAnalysisSectionMatch {
                first_master_msg_id: m(5),
                last_master_msg_id: m(6),
                first_slave_msg_id: s(6),
                last_slave_msg_id: s(7),
            }),
        ]
    );
}

#[test]
fn enforcing_conflicts_twice_changes_nothing_more() {
    let analysis = vec![
        MergeAnalysisSection::Retention(MergeAnalysisSectionRetention { first_master_msg_id: m(1), last_master_msg_id: m(1) }),
        MergeAnalysisSection::Addition(MergeAnalysisSectionAddition { first_slave_msg_id: s(1), last_slave_msg_id: s(2) }),
    ];
    let once = enforce_conflicts(analysis);
    let twice = enforce_conflicts(once.clone());
    assert_eq!(once, twice);
    assert_eq!(
        once,
        vec![MergeAnalysisSection::Conflict(MergeAnalysisSectionConflict {
            first_master_msg_id: m(1),
            last_master_msg_id: m(1),
            first_slave_msg_id: s(1),
            last_slave_msg_id: s(2),
        })]
    );
}

#[test]
fn enforcing_conflicts_keeps_a_retention_alone() {
    let analysis = vec![
        MergeAnalysisSection::Match(MergeAnalysisSectionMatch {
            first_master_msg_id: m(1),
            last_master_msg_id: m(1),
            first_slave_msg_id: s(1),
            last_slave_msg_id: s(1),
        }),
        MergeAnalysisSection::Retention(MergeAnalysisSectionRetention { first_master_msg_id: m(2), last_master_msg_id: m(3) }),
    ];
    let res = enforce_conflicts(analysis.clone());
    assert_eq!(res, analysis);
}

fn with_photo(mut msg: Message, path: &str) -> Message {
    if let Some(MessageTyped::Regular(reg)) = &mut msg.typed {
        reg.contents.push(Content {
            sealed_value_optional: Some(ContentValue::Photo(ContentPhoto {
                path_option: Some(path.to_owned()),
                width: 1,
                height: 1,
                mime_type_option: None,
                is_one_time: false,
            })),
        });
    }
    msg
}

#[test]
fn analyzable_messages_have_typed_part_id_and_relative_paths() {
    assert!(is_analyzable(&regular_msg(1, 101, 1000, "a")));
    assert!(is_analyzable(&with_photo(regular_msg(1, 101, 1000, "a"), "photos/a.jpg")));
    assert!(!is_analyzable(&with_photo(regular_msg(1, 101, 1000, "a"), "/abs/a.jpg")));
    assert!(!is_analyzable(&regular_msg(-1, 101, 1000, "a")));
    let mut untyped = regular_msg(1, 101, 1000, "a");
    untyped.typed = None;
    assert!(!is_analyzable(&untyped));
    assert!(all_messages_analyzable(&vec![regular_msg(1, 101, 1000, "a"), regular_msg(2, 102, 1001, "b")]));
    assert!(!all_messages_analyzable(&vec![regular_msg(1, 101, 1000, "a"), regular_msg(-1, 102, 1001, "b")]));
    assert!(all_messages_analyzable(&vec![]));
}

#[test]
fn time_shift_error_text() {
    let e = AnalysisError::TimeShift { master_timestamp: 1_600_000_000, slave_timestamp: 1_600_003_600 };
    assert_eq!(e.message(), "Time shift detected between datasets! Slave is ahead of master by 3600 sec (1 hrs)");
    let e = AnalysisError::TimeShift { master_timestamp: 1_600_007_300, slave_timestamp: 1_600_000_000 };
    assert_eq!(e.message(), "Time shift detected between datasets! Slave is behind master by 7300 sec (2 hrs)");
    let e = AnalysisError::Comparison(ComparisonError::UnparsableCoordinate);
    assert_eq!(e.message(), "Coordinate is not a number");
}
