use chat_history_manager::ids::UserId;
use chat_history_manager::loaders::uuid_to_i64_pos;
use chat_history_manager::model::{Content, ContentValue, Message, MessageServiceValue, MessageTyped, PbUuid, User};
use chat_history_manager::signal::{
    conversation_chat, conversation_member_ids, find_reply, parse_conversation_messages, uuid_str_to_id, InvalidUuid,
    ProfileChange, SignalCall, SignalError, SignalRow,
};

const USER: UserId = UserId(222);
const MYSELF: UserId = UserId(111);

fn uuid(n: u8) -> [u8; 16] {
    let mut b = [0u8; 16];
    b[0] = n;
    b
}

fn row(n: u8, direction: &str, body: Option<&str>, timestamp_ms: i64) -> SignalRow {
    SignalRow {
        uuid: uuid(n),
        direction: direction.to_owned(),
        body: body.map(|s| s.to_owned()),
        timestamp_ms,
        is_erased: 0,
        edit_timestamp_ms: None,
        quote_id: None,
        call: None,
        profile_change: None,
        attachments: vec![],
    }
}

fn text_of(m: &Message) -> Vec<String> {
    m.text.iter().map(|r| r.get_text().unwrap().to_owned()).collect()
}

#[test]
fn incoming_and_outgoing_messages() {
    let rows = vec![
        row(1, "incoming", Some("Hi"), 1_695_224_029_123),
        row(2, "outgoing", None, 1_695_224_030_999),
    ];
    let ms = parse_conversation_messages(USER, MYSELF, rows).unwrap();
    assert_eq!(ms.len(), 2);
    assert_eq!(ms[0].internal_id, 0);
    assert_eq!(ms[0].source_id_option, Some(uuid_to_i64_pos(&uuid(1))));
    assert_eq!(ms[0].timestamp, 1_695_224_029);
    assert_eq!(ms[0].from_id, 222);
    assert_eq!(text_of(&ms[0]), vec!["Hi".to_owned()]);
    assert_eq!(ms[1].internal_id, 1);
    assert_eq!(ms[1].timestamp, 1_695_224_030);
    assert_eq!(ms[1].from_id, 111);
    assert!(ms[1].text.is_empty());
}

#[test]
fn key_changes_are_left_out_and_numbering_skips_them() {
    let rows = vec![
        row(1, "keychange", None, 1000),
        row(2, "incoming", Some("a"), 2000),
        row(3, "verified-change", None, 3000),
        row(4, "outgoing", Some("b"), 4000),
    ];
    let ms = parse_conversation_messages(USER, MYSELF, rows).unwrap();
    assert_eq!(ms.len(), 2);
    assert_eq!((ms[0].internal_id, ms[1].internal_id), (0, 1));
    assert_eq!(text_of(&ms[1]), vec!["b".to_owned()]);
}

#[test]
fn quotes_resolve_to_the_latest_message_sent_at_that_time() {
    let mut quoting = row(4, "outgoing", Some("re"), 5000);
    quoting.quote_id = Some(2000);
    let mut missing = row(5, "outgoing", Some("re?"), 6000);
    missing.quote_id = Some(1500);
    let rows = vec![
        row(1, "incoming", Some("x"), 2000),
        row(2, "incoming", Some("y"), 2000),
        row(3, "incoming", Some("z"), 3000),
        quoting,
        missing,
    ];
    let ms = parse_conversation_messages(USER, MYSELF, rows).unwrap();
    let reply_of = |m: &Message| match m.typed.as_ref().unwrap() {
        MessageTyped::Regular(mr) => mr.reply_to_message_id_option,
        other => panic!("unexpected {other:?}"),
    };
    assert_eq!(reply_of(&ms[3]), Some(uuid_to_i64_pos(&uuid(2))));
    assert_eq!(reply_of(&ms[4]), None);
}

#[test]
fn reply_lookup_stops_at_an_earlier_time() {
    let stamps = vec![(10, 1), (20, 2), (15, 3), (30, 4)];
    assert_eq!(find_reply(&stamps, 30), Some(4));
    assert_eq!(find_reply(&stamps, 20), None);
    assert_eq!(find_reply(&stamps, 15), Some(3));
    assert_eq!(find_reply(&stamps, 10), Some(1));
    assert_eq!(find_reply(&stamps, 12), None);
    assert_eq!(find_reply(&vec![], 10), None);
}

#[test]
fn edits_deletions_and_attachments() {
    let mut r = row(1, "outgoing", Some("Edited message, final version"), 1_000_500);
    r.edit_timestamp_ms = Some(1_696_178_321_999);
    r.is_erased = 1;
    r.attachments = vec![Content {
        sealed_value_optional: Some(ContentValue::Poll { question: "q".to_owned() }),
    }];
    let ms = parse_conversation_messages(USER, MYSELF, vec![r]).unwrap();
    match ms[0].typed.as_ref().unwrap() {
        MessageTyped::Regular(mr) => {
            assert_eq!(mr.edit_timestamp_option, Some(1_696_178_321));
            assert!(mr.is_deleted);
            assert_eq!(mr.contents.len(), 1);
            assert!(mr.forward_from_name_option.is_none());
        }
        other => panic!("unexpected {other:?}"),
    }
}

#[test]
fn calls_become_phone_call_service_messages() {
    let mut r = row(1, "call-history", None, 1_000);
    r.call = Some(SignalCall { direction: "Incoming".to_owned(), status: "Accepted".to_owned() });
    let mut r2 = row(2, "call-history", None, 2_000);
    r2.call = Some(SignalCall { direction: "Outgoing".to_owned(), status: "Missed".to_owned() });
    let ms = parse_conversation_messages(USER, MYSELF, vec![r, r2]).unwrap();
    assert_eq!(ms[0].from_id, 222);
    assert_eq!(ms[1].from_id, 111);
    match ms[0].typed.as_ref().unwrap() {
        MessageTyped::Service(svc) => match svc.sealed_value_optional.as_ref().unwrap() {
            MessageServiceValue::PhoneCall { duration_sec_option, discard_reason_option, members } => {
                assert_eq!(*duration_sec_option, None);
                assert_eq!(discard_reason_option.as_deref(), Some("hangup"));
                assert!(members.is_empty());
            }
            other => panic!("unexpected {other:?}"),
        },
        other => panic!("unexpected {other:?}"),
    }
}

#[test]
fn profile_change_is_a_notice_with_text() {
    let mut r = row(1, "profile-change", Some("ignored"), 1_000);
    r.profile_change = Some(ProfileChange {
        change_type: "name".to_owned(),
        old_name: "Eeeee".to_owned(),
        new_name: "Fffff".to_owned(),
    });
    let ms = parse_conversation_messages(USER, MYSELF, vec![r]).unwrap();
    assert_eq!(ms[0].from_id, 222);
    assert_eq!(text_of(&ms[0]), vec!["Eeeee changed name to Fffff".to_owned()]);
    assert!(matches!(
        ms[0].typed.as_ref().unwrap(),
        MessageTyped::Service(svc) if matches!(svc.sealed_value_optional, Some(MessageServiceValue::Notice))
    ));
}

#[test]
fn malformed_rows_are_errors() {
    let err = |r: SignalRow| parse_conversation_messages(USER, MYSELF, vec![row(9, "incoming", None, 1), r]).unwrap_err();
    assert_eq!(err(row(1, "story", None, 1)), SignalError::UnknownDirection);
    assert_eq!(err(row(1, "call-history", None, 1)), SignalError::CallNotFound);
    let mut r = row(1, "call-history", None, 1);
    r.call = Some(SignalCall { direction: "Sideways".to_owned(), status: "Accepted".to_owned() });
    assert_eq!(err(r), SignalError::UnknownCallDirection);
    let mut r = row(1, "call-history", None, 1);
    r.call = Some(SignalCall { direction: "Incoming".to_owned(), status: "Pending".to_owned() });
    assert_eq!(err(r), SignalError::UnknownCallStatus);
    assert_eq!(err(row(1, "profile-change", None, 1)), SignalError::MissingProfileChange);
    let mut r = row(1, "profile-change", None, 1);
    r.profile_change = Some(ProfileChange {
        change_type: "avatar".to_owned(),
        old_name: String::new(),
        new_name: String::new(),
    });
    assert_eq!(err(r), SignalError::UnknownProfileChange);
}

#[test]
fn members_are_myself_and_the_other_person() {
    assert_eq!(conversation_member_ids(USER, MYSELF), vec![111, 222]);
    assert_eq!(conversation_member_ids(MYSELF, MYSELF), vec![111]);
}

#[test]
fn uuid_texts_become_ids() {
    let mut bytes = [0u8; 16];
    bytes[0] = 0x55;
    bytes[1] = 0x0e;
    bytes[15] = 0x01;
    let id = uuid_str_to_id("550e0000-0000-0000-0000-000000000001").unwrap();
    assert_eq!(id, uuid_to_i64_pos(&bytes));
    assert_eq!(uuid_str_to_id("550e000000000000000000000000000001").unwrap_err(), InvalidUuid);
    assert_eq!(uuid_str_to_id("not a uuid").unwrap_err(), InvalidUuid);
}

#[test]
fn conversations_become_chats_unless_empty() {
    let user = User {
        ds_uuid: PbUuid { value: "u".to_owned() },
        id: USER.0,
        first_name_option: Some("Eeeee".to_owned()),
        last_name_option: Some("Eeeeeeeeee".to_owned()),
        username_option: None,
        phone_number_option: None,
        profile_pictures: vec![],
    };
    let ds = || PbUuid { value: "ds".to_owned() };
    assert!(conversation_chat(ds(), 7, &user, MYSELF, vec![], 4, 1).is_none());
    let ms = parse_conversation_messages(USER, MYSELF, vec![row(1, "incoming", Some("Hi"), 1000)]).unwrap();
    let cwm = conversation_chat(ds(), 7, &user, MYSELF, ms, 4, 1).unwrap();
    assert_eq!(cwm.chat.id, 7);
    assert_eq!(cwm.chat.name_option.as_deref(), Some("Eeeee"));
    assert_eq!(cwm.chat.member_ids, vec![111, 222]);
    assert_eq!(cwm.chat.msg_count, 1);
    assert_eq!((cwm.chat.source_type, cwm.chat.tpe), (4, 1));
    assert_eq!(cwm.messages.len(), 1);
}
