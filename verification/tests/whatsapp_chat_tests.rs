use std::collections::HashMap;

use chat_history_manager::entity_utils::{EnumResolve, UnknownCode};
use chat_history_manager::model::{
    Chat, ChatWithMessages, Message, MessageServiceValue, MessageTyped, PbUuid, User,
};
use chat_history_manager::whatsapp::{lookup_source_id, MessageRow, MessageType};
use chat_history_manager::whatsapp_chat::{
    keep_chats, sort_ids, wa_chat_kept, wa_chat_start, worth_keeping, ChatKind, WaCallRow, WaChatBuilder, WaChatError,
    WaMessageRow, WA_OFFICIAL_ACCT_JID,
};
use chat_history_manager::whatsapp_system::{
    add_member, parse_system_message, SystemActionType, SystemMessageError, SystemRow,
};

const MYSELF: i64 = 1;
const ANN: i64 = 100;
const BOB: i64 = 200;

fn user(id: i64, first: Option<&str>, phone: Option<&str>) -> User {
    User {
        ds_uuid: PbUuid { value: "00000000-0000-0000-0000-000000000000".to_owned() },
        id,
        first_name_option: first.map(|s| s.to_owned()),
        last_name_option: None,
        username_option: None,
        phone_number_option: phone.map(|s| s.to_owned()),
        profile_pictures: vec![],
    }
}

fn users() -> HashMap<i64, User> {
    let mut m = HashMap::new();
    m.insert(MYSELF, user(MYSELF, Some("Me"), None));
    m.insert(ANN, user(ANN, Some("Ann"), Some("+100")));
    m.insert(BOB, user(BOB, Some("Bob"), None));
    m
}

fn no_system() -> SystemRow {
    SystemRow {
        action_type: None,
        text: None,
        group_user_id: None,
        migrate_user_id: None,
        is_me_joined: None,
        is_blocked: None,
    }
}

fn regular() -> MessageRow {
    MessageRow {
        file_path: None,
        media_name: None,
        width: None,
        height: None,
        mime_type: None,
        media_duration: None,
        vcard: None,
        latitude: None,
        longitude: None,
        place_name: None,
        place_address: None,
        live_location_share_duration: None,
        forward_score: None,
        parent_key_id: None,
        edited_timestamp: None,
        revoke_timestamp: None,
    }
}

fn text_row(from_me: i32, sender_id: Option<i64>, key: &str, text: &str, timestamp_ms: i64) -> WaMessageRow {
    WaMessageRow {
        from_me,
        sender_id,
        msg_type: 0,
        system: no_system(),
        regular: regular(),
        text_data: Some(text.to_owned()),
        caption: None,
        key: key.to_owned(),
        key_id: key.len() as i64 * 1000 + timestamp_ms % 1000,
        revoked_key: None,
        timestamp_ms,
    }
}

fn chat(id: i64) -> Chat {
    Chat {
        ds_uuid: PbUuid { value: "00000000-0000-0000-0000-000000000000".to_owned() },
        id,
        name_option: Some("Chat".to_owned()),
        source_type: 3,
        tpe: 1,
        img_path_option: None,
        member_ids: vec![],
        msg_count: 0,
        main_chat_id: None,
    }
}

fn text_of(m: &Message) -> Vec<String> {
    m.text.iter().map(|r| r.get_text().unwrap().to_owned()).collect()
}

#[test]
fn system_action_types_come_from_their_codes() {
    assert_eq!(SystemActionType::resolve(12), Ok(SystemActionType::GroupUserAdd));
    assert_eq!(SystemActionType::resolve(129), Ok(SystemActionType::IsAContact));
    assert_eq!(SystemActionType::resolve(13), Err(UnknownCode { code: 13 }));
}

#[test]
fn members_are_added_once() {
    let mut ids = vec![1, 5];
    add_member(&mut ids, 5);
    assert_eq!(ids, vec![1, 5]);
    add_member(&mut ids, 3);
    assert_eq!(ids, vec![1, 5, 3]);
    assert_eq!(sort_ids(ids), vec![1, 3, 5]);
}

#[test]
fn group_user_added_by_name() {
    let mut us = users();
    let mut ids = vec![MYSELF];
    let mut row = no_system();
    row.action_type = Some(12);
    row.group_user_id = Some(ANN);
    match parse_system_message(row, MessageType::System, &mut us, MYSELF, &mut ids) {
        Ok(Some((MessageTyped::Service(svc), col))) => {
            match svc.sealed_value_optional {
                Some(MessageServiceValue::GroupInviteMembers { members }) => assert_eq!(members, vec!["Ann".to_owned()]),
                other => panic!("unexpected {other:?}"),
            }
            assert_eq!(col, Some("text_data"));
        }
        other => panic!("unexpected {other:?}"),
    }
    assert_eq!(ids, vec![MYSELF, ANN]);
    assert_eq!(us[&MYSELF].phone_number_option, None);
}

#[test]
fn joining_a_group_fills_in_myself() {
    let mut us = users();
    let mut ids = vec![];
    let mut row = no_system();
    row.action_type = Some(12);
    row.group_user_id = Some(ANN);
    row.is_me_joined = Some(1);
    match parse_system_message(row, MessageType::System, &mut us, MYSELF, &mut ids) {
        Ok(Some((MessageTyped::Service(svc), _))) => match svc.sealed_value_optional {
            Some(MessageServiceValue::GroupInviteMembers { members }) => assert_eq!(members, vec!["Me".to_owned()]),
            other => panic!("unexpected {other:?}"),
        },
        other => panic!("unexpected {other:?}"),
    }
    assert_eq!(ids, vec![MYSELF]);
    // My first name is kept, the phone number I lacked is taken from the user joined as.
    assert_eq!(us[&MYSELF].first_name_option.as_deref(), Some("Me"));
    assert_eq!(us[&MYSELF].phone_number_option.as_deref(), Some("+100"));
}

#[test]
fn number_change_is_titled_by_the_old_number() {
    let mut us = users();
    let mut ids = vec![];
    let mut row = no_system();
    row.action_type = Some(28);
    row.migrate_user_id = Some(ANN);
    match parse_system_message(row, MessageType::System, &mut us, MYSELF, &mut ids) {
        Ok(Some((MessageTyped::Service(svc), _))) => match svc.sealed_value_optional {
            Some(MessageServiceValue::GroupMigrateFrom { title }) => assert_eq!(title, "+100"),
            other => panic!("unexpected {other:?}"),
        },
        other => panic!("unexpected {other:?}"),
    }
    let mut row = no_system();
    row.action_type = Some(28);
    row.migrate_user_id = Some(BOB);
    match parse_system_message(row, MessageType::System, &mut us, MYSELF, &mut ids) {
        Ok(Some((MessageTyped::Service(svc), _))) => match svc.sealed_value_optional {
            Some(MessageServiceValue::GroupMigrateFrom { title }) => assert_eq!(title, "Bob"),
            other => panic!("unexpected {other:?}"),
        },
        other => panic!("unexpected {other:?}"),
    }
}

#[test]
fn other_system_messages() {
    let mut us = users();
    let mut ids = vec![];
    let parse = |row: SystemRow, us: &mut HashMap<i64, User>, ids: &mut Vec<i64>| {
        parse_system_message(row, MessageType::System, us, MYSELF, ids)
    };
    let mut row = no_system();
    row.action_type = Some(11);
    row.text = Some("Friends".to_owned());
    match parse(row, &mut us, &mut ids) {
        Ok(Some((MessageTyped::Service(svc), col))) => {
            assert!(matches!(svc.sealed_value_optional, Some(MessageServiceValue::GroupCreate { ref title, .. }) if title == "Friends"));
            assert_eq!(col, None);
        }
        other => panic!("unexpected {other:?}"),
    }
    let mut row = no_system();
    row.action_type = Some(58);
    row.is_blocked = Some(1);
    match parse(row, &mut us, &mut ids) {
        Ok(Some((MessageTyped::Service(svc), None))) => {
            assert!(matches!(svc.sealed_value_optional, Some(MessageServiceValue::BlockUser { is_blocked: true })))
        }
        other => panic!("unexpected {other:?}"),
    }
    let mut row = no_system();
    row.action_type = Some(67);
    assert!(matches!(parse(row, &mut us, &mut ids), Ok(None)));
    let mut row = no_system();
    row.action_type = Some(1);
    assert!(matches!(parse(row, &mut us, &mut ids), Err(SystemMessageError::UnknownActionType { code: 1 })));
    assert!(matches!(parse(no_system(), &mut us, &mut ids), Err(SystemMessageError::MissingActionType)));
    let mut row = no_system();
    row.action_type = Some(11);
    assert!(matches!(parse(row, &mut us, &mut ids), Err(SystemMessageError::MissingTitle)));
    let mut row = no_system();
    row.action_type = Some(14);
    assert!(matches!(parse(row, &mut us, &mut ids), Err(SystemMessageError::MissingUser)));
    let mut row = no_system();
    row.action_type = Some(58);
    assert!(matches!(parse(row, &mut us, &mut ids), Err(SystemMessageError::MissingBlockFlag)));
    assert!(ids.is_empty());

    match parse_system_message(no_system(), MessageType::MissedCall, &mut us, MYSELF, &mut ids) {
        Ok(Some((MessageTyped::Service(svc), Some("text_data")))) => match svc.sealed_value_optional {
            Some(MessageServiceValue::PhoneCall { duration_sec_option, discard_reason_option, members }) => {
                assert_eq!(duration_sec_option, None);
                assert_eq!(discard_reason_option.as_deref(), Some("missed"));
                assert!(members.is_empty());
            }
            other => panic!("unexpected {other:?}"),
        },
        other => panic!("unexpected {other:?}"),
    }
}

#[test]
fn personal_chat_senders_texts_and_order() {
    let mut us = users();
    let mut b = WaChatBuilder::new(ChatKind::Personal, ANN, MYSELF);
    b.add_message_row(&mut us, text_row(0, None, "k1", "Hello", 5_000)).unwrap();
    b.add_message_row(&mut us, text_row(1, None, "k2", "Hi!", 3_500)).unwrap();
    b.add_message_row(&mut us, text_row(0, None, "k3", "", 3_999)).unwrap();
    b.add_call_row(&us, WaCallRow { from_me: 0, sender_id: ANN, call_key_id: 77, timestamp_ms: 3_000, duration: Some(0) });
    assert_eq!(lookup_source_id(&b.keys, "k2"), Some(2500));
    let cwm = b.complete(chat(ANN));
    assert_eq!(cwm.chat.member_ids, vec![MYSELF, ANN]);
    assert_eq!(cwm.chat.msg_count, 4);
    assert_eq!(cwm.chat.id, ANN);
    let ids: Vec<i64> = cwm.messages.iter().map(|m| m.internal_id).collect();
    assert_eq!(ids, vec![0, 1, 2, 3]);
    let times: Vec<i64> = cwm.messages.iter().map(|m| m.timestamp).collect();
    // Three messages fall into the third second and keep the order they were added in.
    assert_eq!(times, vec![3, 3, 3, 5]);
    assert_eq!(text_of(&cwm.messages[0]), vec!["Hi!".to_owned()]);
    assert_eq!(cwm.messages[0].from_id, MYSELF);
    assert!(cwm.messages[1].text.is_empty());
    assert_eq!(cwm.messages[2].source_id_option, Some(77));
    assert_eq!(cwm.messages[2].from_id, ANN);
    assert_eq!(text_of(&cwm.messages[3]), vec!["Hello".to_owned()]);
    assert!(worth_keeping(&cwm));
}

#[test]
fn group_senders_replies_and_deletions() {
    let mut us = users();
    let mut b = WaChatBuilder::new(ChatKind::PrivateGroup, 999, MYSELF);
    b.add_message_row(&mut us, text_row(0, Some(BOB), "k1", "first", 1_000)).unwrap();
    let mut reply = text_row(1, None, "k22", "reply", 2_000);
    reply.regular.parent_key_id = Some("k1".to_owned());
    b.add_message_row(&mut us, reply).unwrap();
    let mut deleted = text_row(0, Some(ANN), "k333", "", 3_000);
    deleted.msg_type = 15;
    deleted.revoked_key = Some("k1".to_owned());
    b.add_message_row(&mut us, deleted).unwrap();
    let mut reply2 = text_row(1, None, "k4444", "reply again", 4_000);
    reply2.regular.parent_key_id = Some("k1".to_owned());
    b.add_message_row(&mut us, reply2).unwrap();

    let cwm = b.complete(chat(999));
    assert_eq!(cwm.chat.member_ids, vec![MYSELF, ANN, BOB]);
    assert_eq!(cwm.messages[0].from_id, BOB);
    assert_eq!(cwm.messages[1].from_id, MYSELF);
    let reply_of = |m: &Message| match m.typed.as_ref().unwrap() {
        MessageTyped::Regular(mr) => mr.reply_to_message_id_option,
        other => panic!("unexpected {other:?}"),
    };
    assert_eq!(reply_of(&cwm.messages[1]), cwm.messages[0].source_id_option);
    // The key of the deleted message now leads to its placeholder.
    assert_eq!(reply_of(&cwm.messages[3]), cwm.messages[2].source_id_option);
    match cwm.messages[2].typed.as_ref().unwrap() {
        MessageTyped::Regular(mr) => assert!(mr.is_deleted),
        other => panic!("unexpected {other:?}"),
    }
}

#[test]
fn rows_that_are_skipped_or_wrong() {
    let mut us = users();
    let mut b = WaChatBuilder::new(ChatKind::PrivateGroup, 999, MYSELF);
    let mut video_call = text_row(0, Some(ANN), "k1", "", 1_000);
    video_call.msg_type = 90;
    b.add_message_row(&mut us, video_call).unwrap();
    assert!(b.messages.is_empty());
    assert_eq!(b.member_ids, vec![MYSELF, ANN]);

    let mut unknown = text_row(0, Some(BOB), "k2", "", 1_000);
    unknown.msg_type = 6;
    assert!(matches!(b.add_message_row(&mut us, unknown), Err(WaChatError::UnknownMessageType { code: 6 })));

    let mut deleted = text_row(0, Some(BOB), "k3", "", 1_000);
    deleted.msg_type = 15;
    assert!(matches!(b.add_message_row(&mut us, deleted), Err(WaChatError::MissingRevokedKey)));
    assert!(b.messages.is_empty());
    assert!(b.keys.is_empty());

    let mut system = text_row(0, Some(BOB), "k4", "", 1_000);
    system.msg_type = 7;
    system.system.action_type = Some(59);
    b.add_message_row(&mut us, system).unwrap();
    assert!(b.messages.is_empty());

    let mut blocked = text_row(0, Some(BOB), "k5", "true", 1_000);
    blocked.msg_type = 7;
    blocked.system.action_type = Some(58);
    blocked.system.is_blocked = Some(0);
    b.add_message_row(&mut us, blocked).unwrap();
    assert_eq!(b.messages.len(), 1);
    assert!(b.messages[0].text.is_empty());

    let cwm: ChatWithMessages = b.complete(chat(999));
    // Only service messages: the chat is not kept.
    assert!(!worth_keeping(&cwm));
    let empty = WaChatBuilder::new(ChatKind::Personal, ANN, MYSELF).complete(chat(ANN));
    assert_eq!(empty.chat.msg_count, 0);
    assert!(!worth_keeping(&empty));
}

#[test]
fn official_account_and_empty_chats_are_not_kept() {
    assert!(wa_chat_kept("100@s.whatsapp.net", 3, true));
    assert!(!wa_chat_kept(WA_OFFICIAL_ACCT_JID, 3, true));
    assert!(!wa_chat_kept("0@s.whatsapp.net", 3, true));
    assert!(!wa_chat_kept("100@s.whatsapp.net", 0, true));
    assert!(!wa_chat_kept("100@s.whatsapp.net", 3, false));
}

#[test]
fn chats_start_named_by_subject_or_person() {
    let ds = PbUuid { value: "00000000-0000-0000-0000-000000000000".to_owned() };
    let us = users();
    let (c, b) = wa_chat_start(&ds, "100@s.whatsapp.net", ANN, None, &us, MYSELF, 3, 1, 2);
    assert_eq!(c.id, ANN);
    assert_eq!(c.name_option.as_deref(), Some("Ann"));
    assert_eq!(c.tpe, 1);
    assert_eq!(c.source_type, 3);
    assert_eq!(c.img_path_option.as_deref(), Some("files/Avatars/100@s.whatsapp.net.j"));
    assert!(c.member_ids.is_empty());
    assert_eq!(c.msg_count, 0);
    assert_eq!(b.kind, ChatKind::Personal);
    assert_eq!(b.member_ids, vec![MYSELF]);
    let (c, b) = wa_chat_start(&ds, "123-456@g.us", 555, Some("Friends".to_owned()), &us, MYSELF, 3, 1, 2);
    assert_eq!(c.name_option.as_deref(), Some("Friends"));
    assert_eq!(c.tpe, 2);
    assert_eq!(b.kind, ChatKind::PrivateGroup);
    assert_eq!(b.chat_id, 555);
}

#[test]
fn only_loaded_chats_are_kept() {
    let mut us = users();
    let mut b = WaChatBuilder::new(ChatKind::Personal, ANN, MYSELF);
    b.add_message_row(&mut us, text_row(0, None, "k1", "Hello", 5_000)).unwrap();
    let with_text = b.complete(chat(ANN));
    let mut b = WaChatBuilder::new(ChatKind::Personal, BOB, MYSELF);
    b.add_call_row(&us, WaCallRow { from_me: 0, sender_id: BOB, call_key_id: 1, timestamp_ms: 3_000, duration: None });
    let calls_only = b.complete(chat(BOB));
    let empty = WaChatBuilder::new(ChatKind::Personal, 300, MYSELF).complete(chat(300));
    let mut b = WaChatBuilder::new(ChatKind::Personal, ANN, MYSELF);
    b.add_message_row(&mut us, text_row(0, None, "k9", "Official", 5_000)).unwrap();
    let official = b.complete(chat(ANN));
    let kept = keep_chats(vec![
        ("100@s.whatsapp.net".to_owned(), with_text),
        ("200@s.whatsapp.net".to_owned(), calls_only),
        ("300@s.whatsapp.net".to_owned(), empty),
        (WA_OFFICIAL_ACCT_JID.to_owned(), official),
    ]);
    assert_eq!(kept.len(), 1);
    assert_eq!(kept[0].chat.id, ANN);
    assert_eq!(text_of(&kept[0].messages[0]), vec!["Hello".to_owned()]);
    assert!(kept[0].chat.member_ids.contains(&MYSELF));
}
