use std::collections::HashMap;

use chat_history_manager::model::{ContentValue, Message, MessageServiceValue, MessageTyped, PbUuid, User};
use chat_history_manager::tg_keeper::{EntityKind, LoaderConfig, MessageEntity, Peer, RawPeerId, USER_ID_SHIFT};
use chat_history_manager::tg_media::{MediaError, MediaFile, TgMedia};
use chat_history_manager::tg_message::{parse_message, ForwardHeader, TgMessage, TgMessageError};
use chat_history_manager::tg_service::{MessageAction, ReplyHeader, ServiceError};

const MYSELF: i64 = 1000;

fn users() -> HashMap<i64, User> {
    let mut m = HashMap::new();
    m.insert(
        5,
        User {
            ds_uuid: PbUuid { value: "00000000-0000-0000-0000-000000000000".to_owned() },
            id: 5,
            first_name_option: Some("Ann".to_owned()),
            last_name_option: Some("Lee".to_owned()),
            username_option: None,
            phone_number_option: None,
            profile_pictures: vec![],
        },
    );
    m
}

fn config() -> LoaderConfig {
    LoaderConfig { load_generic_files: true, max_file_video_size_bytes: 1000 }
}

fn regular(message: &str, media: Option<TgMedia>) -> TgMessage {
    TgMessage::Message {
        id: 17,
        date: 1_700_000_000,
        from_id: None,
        peer_id: Peer::User { user_id: 5 },
        out: false,
        fwd_from: None,
        reply_to: None,
        message: message.to_owned(),
        entities: None,
        media,
        edit_hide: false,
        edit_date: None,
    }
}

fn parse(m: TgMessage) -> Result<Option<Message>, TgMessageError> {
    parse_message(&config(), m, None, None, &users(), RawPeerId(MYSELF))
}

fn regular_part(m: &Message) -> &chat_history_manager::model::MessageRegular {
    match m.typed.as_ref().unwrap() {
        MessageTyped::Regular(mr) => mr,
        other => panic!("unexpected {other:?}"),
    }
}

#[test]
fn incoming_message_is_from_its_peer() {
    let m = parse(regular("Hello there", None)).unwrap().unwrap();
    assert_eq!(m.internal_id, 17);
    assert_eq!(m.source_id_option, Some(17));
    assert_eq!(m.timestamp, 1_700_000_000);
    assert_eq!(m.from_id, 5);
    assert_eq!(m.text.len(), 1);
    assert_eq!(m.text[0].get_text(), Some("Hello there"));
    assert_eq!(m.searchable_string, "Hello there");
    let mr = regular_part(&m);
    assert!(!mr.is_deleted);
    assert!(mr.contents.is_empty());
    assert_eq!(mr.edit_timestamp_option, None);
    assert_eq!(mr.forward_from_name_option, None);
    assert_eq!(mr.reply_to_message_id_option, None);
}

#[test]
fn outgoing_message_is_from_myself_and_shifted_ids_are_normalized() {
    let mut raw = regular("x", None);
    if let TgMessage::Message { out, .. } = &mut raw {
        *out = true;
    }
    assert_eq!(parse(raw).unwrap().unwrap().from_id, MYSELF);
    let mut raw = regular("x", None);
    if let TgMessage::Message { from_id, .. } = &mut raw {
        *from_id = Some(Peer::User { user_id: USER_ID_SHIFT + 7 });
    }
    assert_eq!(parse(raw).unwrap().unwrap().from_id, 7);
}

#[test]
fn forward_reply_and_edit_are_kept() {
    let mut raw = regular("", None);
    if let TgMessage::Message { fwd_from, reply_to, edit_date, .. } = &mut raw {
        *fwd_from = Some(ForwardHeader { from_name: None, from_id: Some(Peer::User { user_id: 5 }) });
        *reply_to = Some(ReplyHeader::Header { reply_to_msg_id: Some(3) });
        *edit_date = Some(1_700_000_100);
    }
    let m = parse(raw).unwrap().unwrap();
    assert!(m.text.is_empty());
    let mr = regular_part(&m);
    assert_eq!(mr.forward_from_name_option.as_deref(), Some("Ann Lee"));
    assert_eq!(mr.reply_to_message_id_option, Some(3));
    assert_eq!(mr.edit_timestamp_option, Some(1_700_000_100));

    let mut raw = regular("", None);
    if let TgMessage::Message { fwd_from, reply_to, edit_date, edit_hide, .. } = &mut raw {
        *fwd_from = Some(ForwardHeader { from_name: Some("Channel".to_owned()), from_id: Some(Peer::User { user_id: 5 }) });
        *reply_to = Some(ReplyHeader::StoryHeader);
        *edit_date = Some(1_700_000_100);
        *edit_hide = true;
    }
    let m = parse(raw).unwrap().unwrap();
    let mr = regular_part(&m);
    assert_eq!(mr.forward_from_name_option.as_deref(), Some("Channel"));
    assert_eq!(mr.reply_to_message_id_option, None);
    assert_eq!(mr.edit_timestamp_option, None);

    let mut raw = regular("", None);
    if let TgMessage::Message { fwd_from, .. } = &mut raw {
        *fwd_from = Some(ForwardHeader { from_name: None, from_id: Some(Peer::User { user_id: 99 }) });
    }
    let m = parse(raw).unwrap().unwrap();
    assert_eq!(regular_part(&m).forward_from_name_option.as_deref(), Some("[unknown]"));
}

#[test]
fn entities_format_the_text() {
    let mut raw = regular("say hi", None);
    if let TgMessage::Message { entities, .. } = &mut raw {
        *entities = Some(vec![MessageEntity { kind: EntityKind::Bold, offset: 4, length: 2 }]);
    }
    let m = parse(raw).unwrap().unwrap();
    assert_eq!(m.text.len(), 2);
    assert_eq!(m.text[0].get_text(), Some("say "));
    assert_eq!(m.text[1].get_text(), Some("hi"));
}

#[test]
fn media_becomes_one_content_or_none() {
    let raw = regular("look", Some(TgMedia::Poll { question: "Lunch?".to_owned() }));
    let m = parse(raw).unwrap().unwrap();
    let mr = regular_part(&m);
    assert_eq!(mr.contents.len(), 1);
    assert!(matches!(&mr.contents[0].sealed_value_optional, Some(ContentValue::Poll { question }) if question == "Lunch?"));

    let m = parse(regular("link", Some(TgMedia::WebPage))).unwrap().unwrap();
    assert!(regular_part(&m).contents.is_empty());

    let r = parse(regular("where", Some(TgMedia::Venue { coordinates: None, title: String::new(), address: String::new() })));
    assert!(matches!(r, Err(TgMessageError::Media(MediaError::VenueWithoutCoordinates))));
}

#[test]
fn media_file_path_goes_into_content() {
    let raw = regular("", Some(TgMedia::Photo { photo: None, has_ttl: false }));
    let file = Some(MediaFile { rel_path: "photos/1.jpg".to_owned(), size_bytes: 10 });
    let m = parse_message(&config(), raw, file, None, &users(), RawPeerId(MYSELF)).unwrap().unwrap();
    match &regular_part(&m).contents[0].sealed_value_optional {
        Some(ContentValue::Photo(p)) => assert_eq!(p.path_option.as_deref(), Some("photos/1.jpg")),
        other => panic!("unexpected {other:?}"),
    }
}

fn service(action: MessageAction, reply_to: Option<ReplyHeader>) -> TgMessage {
    TgMessage::Service {
        id: 20,
        date: 1_600_000_000,
        from_id: Some(Peer::User { user_id: 5 }),
        peer_id: Peer::Chat { chat_id: 77 },
        out: false,
        action,
        reply_to,
    }
}

#[test]
fn service_messages() {
    let m = parse(service(MessageAction::ChatEditTitle { title: "New".to_owned() }, None)).unwrap().unwrap();
    assert_eq!(m.internal_id, 20);
    assert_eq!(m.from_id, 5);
    match m.typed.unwrap() {
        MessageTyped::Service(svc) => match svc.sealed_value_optional {
            Some(MessageServiceValue::GroupEditTitle { title }) => assert_eq!(title, "New"),
            other => panic!("unexpected {other:?}"),
        },
        other => panic!("unexpected {other:?}"),
    }

    let m = parse(service(MessageAction::PinMessage, Some(ReplyHeader::Header { reply_to_msg_id: Some(8) })))
        .unwrap()
        .unwrap();
    match m.typed.unwrap() {
        MessageTyped::Service(svc) => assert!(matches!(
            svc.sealed_value_optional,
            Some(MessageServiceValue::PinMessage { message_id: 8 })
        )),
        other => panic!("unexpected {other:?}"),
    }

    let r = parse(service(MessageAction::PinMessage, None));
    assert!(matches!(r, Err(TgMessageError::Service(ServiceError::PinWithoutReply))));

    assert!(parse(service(MessageAction::ScreenshotTaken, None)).unwrap().is_none());
}

#[test]
fn empty_message_gives_nothing() {
    assert!(parse(TgMessage::Empty { id: 1, peer_id: None }).unwrap().is_none());
}
