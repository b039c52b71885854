use std::collections::HashMap;

use chat_history_manager::model::{MessageService, MessageServiceValue, PbUuid, RichTextElement, User};
use chat_history_manager::tg_keeper::{Peer, PhotoSize, RawPeerId, TgPhoto};
use chat_history_manager::tg_service::{
    parse_service_message, resolve_pretty_name, ttl_notice_text, MessageAction, PhoneCallDiscardReason,
    ReplyHeader, ServiceError,
};

fn users() -> HashMap<i64, User> {
    let mut m = HashMap::new();
    m.insert(
        5,
        User {
            ds_uuid: PbUuid { value: "00000000-0000-0000-0000-000000000000".to_owned() },
            id: 5,
            first_name_option: Some("Ann".to_owned()),
            last_name_option: Some("Lee".to_owned()),
            username_option: None,
            phone_number_option: None,
            profile_pictures: vec![],
        },
    );
    m
}

fn parse(action: MessageAction) -> Result<Option<(MessageService, Vec<RichTextElement>)>, ServiceError> {
    parse_service_message(&action, &None, None, None, &users())
}

fn value_and_text(action: MessageAction) -> (MessageServiceValue, Vec<String>) {
    let (svc, text) = parse(action).unwrap().unwrap();
    (svc.sealed_value_optional.unwrap(), text.iter().map(|r| r.get_text().unwrap().to_owned()).collect())
}

#[test]
fn phone_calls_keep_duration_and_reason() {
    match value_and_text(MessageAction::PhoneCall { duration: Some(30), reason: Some(PhoneCallDiscardReason::Missed) }) {
        (MessageServiceValue::PhoneCall { duration_sec_option, discard_reason_option, members }, text) => {
            assert_eq!(duration_sec_option, Some(30));
            assert_eq!(discard_reason_option.as_deref(), Some("missed"));
            assert!(members.is_empty());
            assert!(text.is_empty());
        }
        other => panic!("unexpected {other:?}"),
    }
    match value_and_text(MessageAction::GroupCall { duration: None }) {
        (MessageServiceValue::PhoneCall { duration_sec_option, discard_reason_option, .. }, _) => {
            assert_eq!(duration_sec_option, None);
            assert_eq!(discard_reason_option, None);
        }
        other => panic!("unexpected {other:?}"),
    }
}

#[test]
fn pinning_needs_a_reply_to_a_message() {
    let users = users();
    let pin = MessageAction::PinMessage;
    match parse_service_message(&pin, &Some(ReplyHeader::Header { reply_to_msg_id: Some(42) }), None, None, &users) {
        Ok(Some((svc, text))) => {
            assert!(matches!(svc.sealed_value_optional, Some(MessageServiceValue::PinMessage { message_id: 42 })));
            assert!(text.is_empty());
        }
        other => panic!("unexpected {other:?}"),
    }
    assert!(matches!(parse_service_message(&pin, &None, None, None, &users), Err(ServiceError::PinWithoutReply)));
    assert!(matches!(
        parse_service_message(&pin, &Some(ReplyHeader::StoryHeader), None, None, &users),
        Err(ServiceError::PinOfStoryReply)
    ));
    assert!(matches!(
        parse_service_message(&pin, &Some(ReplyHeader::Header { reply_to_msg_id: None }), None, None, &users),
        Err(ServiceError::PinWithoutMessageId)
    ));
}

#[test]
fn groups_list_member_ids_or_names() {
    match value_and_text(MessageAction::ChatCreate { title: "G".to_owned(), users: vec![1, -2] }) {
        (MessageServiceValue::GroupCreate { title, members }, _) => {
            assert_eq!(title, "G");
            assert_eq!(members, vec!["1".to_owned(), "-2".to_owned()]);
        }
        other => panic!("unexpected {other:?}"),
    }
    match value_and_text(MessageAction::ChatDeleteUser { user_id: 77 }) {
        (MessageServiceValue::GroupRemoveMembers { members }, _) => assert_eq!(members, vec!["77".to_owned()]),
        other => panic!("unexpected {other:?}"),
    }
    match value_and_text(MessageAction::ChatJoinedByLink { inviter_id: 5 }) {
        (MessageServiceValue::GroupInviteMembers { members }, _) => assert_eq!(members, vec!["Ann Lee".to_owned()]),
        other => panic!("unexpected {other:?}"),
    }
    match value_and_text(MessageAction::InviteToGroupCall { users: vec![5, 6] }) {
        (MessageServiceValue::PhoneCall { members, .. }, _) => {
            assert_eq!(members, vec!["Ann Lee".to_owned(), "[unknown]".to_owned()])
        }
        other => panic!("unexpected {other:?}"),
    }
    let users = users();
    let by_request = MessageAction::ChatJoinedByRequest;
    match parse_service_message(&by_request, &None, Some(Peer::User { user_id: 5 }), None, &users) {
        Ok(Some((svc, _))) => match svc.sealed_value_optional {
            Some(MessageServiceValue::GroupInviteMembers { members }) => assert_eq!(members, vec!["Ann Lee".to_owned()]),
            other => panic!("unexpected {other:?}"),
        },
        other => panic!("unexpected {other:?}"),
    }
    match value_and_text(MessageAction::ChatJoinedByRequest) {
        (MessageServiceValue::GroupInviteMembers { members }, _) => assert!(members.is_empty()),
        other => panic!("unexpected {other:?}"),
    }
}

#[test]
fn group_photo_takes_the_widest_size_and_the_media_path() {
    let users = users();
    let action = MessageAction::ChatEditPhoto {
        photo: TgPhoto::Photo { sizes: vec![PhotoSize::Size { w: 100, h: 50 }, PhotoSize::Size { w: 200, h: 10 }] },
    };
    match parse_service_message(&action, &None, None, Some("media/p.jpg".to_owned()), &users) {
        Ok(Some((svc, _))) => match svc.sealed_value_optional {
            Some(MessageServiceValue::GroupEditPhoto { photo }) => {
                assert_eq!(photo.path_option.as_deref(), Some("media/p.jpg"));
                assert_eq!((photo.width, photo.height), (200, 10));
            }
            other => panic!("unexpected {other:?}"),
        },
        other => panic!("unexpected {other:?}"),
    }
    match value_and_text(MessageAction::ChatEditPhoto { photo: TgPhoto::Empty }) {
        (MessageServiceValue::GroupEditPhoto { photo }, _) => assert_eq!((photo.width, photo.height), (0, 0)),
        other => panic!("unexpected {other:?}"),
    }
}

#[test]
fn notices_come_with_text() {
    match value_and_text(MessageAction::SetMessagesTtl { period: 86400 }) {
        (MessageServiceValue::Notice, text) => assert_eq!(text, vec!["Messages will be auto-deleted in 1 day(s)".to_owned()]),
        other => panic!("unexpected {other:?}"),
    }
    match value_and_text(MessageAction::ContactSignUp) {
        (MessageServiceValue::Notice, text) => assert_eq!(text, vec!["Joined Telegram".to_owned()]),
        other => panic!("unexpected {other:?}"),
    }
    assert_eq!(ttl_notice_text(7200), "Messages will be auto-deleted in 2 hour(s)");
    assert_eq!(ttl_notice_text(120), "Messages will be auto-deleted in 2 minute(s)");
    assert_eq!(ttl_notice_text(90), "Messages will be auto-deleted in 90 second(s)");
    assert_eq!(ttl_notice_text(0), "Messages will be auto-deleted in 0 day(s)");
    assert_eq!(ttl_notice_text(-3600), "Messages will be auto-deleted in -1 hour(s)");
    assert_eq!(ttl_notice_text(172800 * 7), "Messages will be auto-deleted in 14 day(s)");
}

#[test]
fn other_actions_are_skipped() {
    for action in [MessageAction::ScreenshotTaken, MessageAction::GiftPremium, MessageAction::TopicCreate, MessageAction::Empty] {
        assert!(matches!(parse(action), Ok(None)));
    }
    match value_and_text(MessageAction::HistoryClear) {
        (MessageServiceValue::ClearHistory, text) => assert!(text.is_empty()),
        other => panic!("unexpected {other:?}"),
    }
}

#[test]
fn unknown_users_resolve_to_placeholder() {
    assert_eq!(resolve_pretty_name(&users(), RawPeerId(5)), "Ann Lee");
    assert_eq!(resolve_pretty_name(&users(), RawPeerId(9)), "[unknown]");
}
