use chat_history_manager::ids::UserId;
use chat_history_manager::loaders::LoaderError;
use chat_history_manager::model::{
    Chat, Message, MessageRegular, MessageService, MessageServiceValue, MessageTyped, PbUuid, RichTextElement, RteVal,
};
use chat_history_manager::tg_keeper::{
    mark_message_deleted, parse_text, photo_resolution, CwmBuilder, DeletionError, EntityKind, LoaderConfig,
    MessageEntity, Peer, PhotoSize, RawMessageHeader, RawPeerId,
    TgKeeperDataLoader, USER_ID_SHIFT,
};

fn chat(id: i64) -> Chat {
    Chat {
        ds_uuid: PbUuid { value: "uuid".to_owned() },
        id,
        name_option: Some(format!("Chat {id}")),
        source_type: 1,
        tpe: 1,
        img_path_option: None,
        member_ids: vec![],
        msg_count: 0,
        main_chat_id: None,
    }
}

fn msg(id: i64, from: i64, ts: i64) -> Message {
    Message {
        internal_id: id,
        source_id_option: Some(id),
        timestamp: ts,
        from_id: from,
        text: vec![],
        searchable_string: String::new(),
        typed: Some(MessageTyped::Regular(MessageRegular {
            edit_timestamp_option: None,
            is_deleted: false,
            forward_from_name_option: None,
            reply_to_message_id_option: None,
            contents: vec![],
        })),
    }
}

fn is_deleted(m: &Message) -> bool {
    match &m.typed {
        Some(MessageTyped::Regular(r)) => r.is_deleted,
        _ => false,
    }
}

#[test]
fn shifted_user_ids_are_normalized() {
    assert_eq!(RawPeerId(USER_ID_SHIFT + 5).normalize_user_id(), UserId(5));
    assert_eq!(RawPeerId(USER_ID_SHIFT).normalize_user_id(), UserId(0));
    assert_eq!(RawPeerId(7).normalize_user_id(), UserId(7));
}

#[test]
fn builder_orders_messages_by_id_and_overwrites() {
    let mut b = CwmBuilder::new(chat(1));
    b.add_message(msg(3, 10, 300));
    b.add_message(msg(1, 20, 100));
    b.add_message(msg(2, 10, 200));
    b.add_message(msg(1, 30, 111));
    let cwm = b.build(UserId(20));
    let ids: Vec<i64> = cwm.messages.iter().map(|m| m.internal_id).collect();
    assert_eq!(ids, vec![1, 2, 3]);
    assert_eq!(cwm.messages[0].timestamp, 111);
    assert_eq!(cwm.chat.msg_count, 3);
    assert_eq!(cwm.chat.member_ids, vec![20, 10, 30]);
    assert_eq!(cwm.chat.id, 1);
}

#[test]
fn myself_comes_first_even_without_messages() {
    let mut b = CwmBuilder::new(chat(2));
    b.add_message(msg(1, 10, 100));
    let cwm = b.build(UserId(99));
    assert_eq!(cwm.chat.member_ids, vec![99, 10]);
}

#[test]
fn deleted_message_is_marked() {
    let mut b1 = CwmBuilder::new(chat(1));
    b1.add_message(msg(1, 10, 100));
    b1.add_message(msg(2, 10, 200));
    let mut b2 = CwmBuilder::new(chat(2));
    b2.add_message(msg(3, 10, 300));
    let mut builders = vec![b1, b2];
    assert!(mark_message_deleted(&mut builders, 2).is_ok());
    assert!(!is_deleted(&builders[0].messages[0]));
    assert!(is_deleted(&builders[0].messages[1]));
    assert!(!is_deleted(&builders[1].messages[0]));
    // Unknown messages are ignored
    assert!(mark_message_deleted(&mut builders, 42).is_ok());
}

#[test]
fn deleted_service_message_is_kept() {
    let mut b = CwmBuilder::new(chat(1));
    let mut m = msg(1, 10, 100);
    m.typed = Some(MessageTyped::Service(MessageService { sealed_value_optional: Some(MessageServiceValue::ClearHistory) }));
    b.add_message(m);
    let mut builders = vec![b];
    assert!(mark_message_deleted(&mut builders, 1).is_ok());
    assert!(matches!(builders[0].messages[0].typed, Some(MessageTyped::Service(_))));
}

#[test]
fn message_in_two_chats_cannot_be_deleted() {
    let mut b1 = CwmBuilder::new(chat(1));
    b1.add_message(msg(5, 10, 100));
    let mut b2 = CwmBuilder::new(chat(2));
    b2.add_message(msg(5, 11, 100));
    let mut builders = vec![b1, b2];
    assert_eq!(mark_message_deleted(&mut builders, 5), Err(DeletionError::ContainedInSeveralChats));
    assert!(!is_deleted(&builders[0].messages[0]));
    assert!(!is_deleted(&builders[1].messages[0]));
}

#[test]
fn loader_recognizes_its_file() {
    let loader = TgKeeperDataLoader { config: LoaderConfig { load_generic_files: true, max_file_video_size_bytes: 1024 } };
    assert_eq!(loader.name(), "TgKeeper");
    assert!(loader.looks_about_right_inner("tg-keeper.sqlite").is_ok());
    match loader.looks_about_right_inner("other.db") {
        Err(LoaderError::FileNameMismatch { actual, expected }) => {
            assert_eq!(actual, "other.db");
            assert_eq!(expected, "tg-keeper.sqlite");
        }
        other => panic!("unexpected {other:?}"),
    }
}

fn entity(kind: EntityKind, offset: i32, length: i32) -> MessageEntity {
    MessageEntity { kind, offset, length }
}

fn texts(rtes: &[RichTextElement]) -> Vec<String> {
    rtes.iter().map(|r| r.get_text().unwrap_or("").to_owned()).collect()
}

#[test]
fn parse_text_of_empty_message_is_empty() {
    assert!(parse_text("", &[entity(EntityKind::Bold, 0, 1)]).is_empty());
}

#[test]
fn parse_text_without_entities_keeps_text_as_is() {
    let r = parse_text("  Hello  ", &[]);
    assert_eq!(texts(&r), vec!["  Hello  ".to_owned()]);
    assert!(matches!(r[0].val, Some(RteVal::Plain { .. })));
}

#[test]
fn parse_text_counts_offsets_in_utf16_units() {
    // The emoji takes two UTF-16 code units, so "bold" starts at unit 5.
    let r = parse_text("a\u{1F600}b bold c", &[entity(EntityKind::Bold, 5, 4)]);
    assert_eq!(texts(&r), vec!["a\u{1F600}b ".to_owned(), "bold".to_owned(), " c".to_owned()]);
    assert!(matches!(r[0].val, Some(RteVal::Plain { .. })));
    assert!(matches!(r[1].val, Some(RteVal::Bold { .. })));
    assert!(matches!(r[2].val, Some(RteVal::Plain { .. })));
}

#[test]
fn parse_text_joins_plain_entities_and_trims() {
    let r = parse_text(" see @bob now ", &[entity(EntityKind::Mention, 5, 4)]);
    assert_eq!(texts(&r), vec!["see @bob now".to_owned()]);
    assert_eq!(r.len(), 1);
}

#[test]
fn parse_text_makes_links_code_and_skips_custom_emoji() {
    let msg = "x https://a.b y code z";
    let r = parse_text(
        msg,
        &[
            entity(EntityKind::CustomEmoji, 0, 1),
            entity(EntityKind::Url, 2, 11),
            entity(EntityKind::TextUrl { url: "https://c.d".to_owned() }, 14, 1),
            entity(EntityKind::Pre { language: "rust".to_owned() }, 16, 4),
            entity(EntityKind::Code, 21, 1),
        ],
    );
    assert_eq!(
        texts(&r),
        vec!["x ", "https://a.b", " ", "y", " ", "code", " ", "z"].into_iter().map(|s| s.to_owned()).collect::<Vec<_>>()
    );
    match &r[1].val {
        Some(RteVal::Link { href, hidden, .. }) => {
            assert_eq!(href, "https://a.b");
            assert!(!hidden);
        }
        other => panic!("unexpected {other:?}"),
    }
    match &r[3].val {
        Some(RteVal::Link { href, .. }) => assert_eq!(href, "https://c.d"),
        other => panic!("unexpected {other:?}"),
    }
    match &r[5].val {
        Some(RteVal::PrefmtBlock { language_option, .. }) => assert_eq!(language_option.as_deref(), Some("rust")),
        other => panic!("unexpected {other:?}"),
    }
    assert!(matches!(r[7].val, Some(RteVal::PrefmtInline { .. })));
}

#[test]
fn parse_text_ignores_entities_after_the_text_is_used_up() {
    let r = parse_text("ab", &[entity(EntityKind::Italic, 0, 2), entity(EntityKind::Bold, 100, 1)]);
    assert_eq!(texts(&r), vec!["ab".to_owned()]);
    assert!(matches!(r[0].val, Some(RteVal::Italic { .. })));
}

#[test]
fn parse_text_pre_without_language() {
    let r = parse_text("code", &[entity(EntityKind::Pre { language: String::new() }, 0, 4)]);
    match &r[0].val {
        Some(RteVal::PrefmtBlock { text, language_option }) => {
            assert_eq!(text, "code");
            assert!(language_option.is_none());
        }
        other => panic!("unexpected {other:?}"),
    }
}

#[test]
fn author_is_sender_or_myself_or_peer() {
    let me = RawPeerId(1);
    let from = RawMessageHeader::Message {
        from_id: Some(Peer::User { user_id: 5 }),
        peer_id: Peer::Chat { chat_id: 9 },
        out: true,
    };
    assert_eq!(from.author_raw_id(me), RawPeerId(5));
    let outgoing = RawMessageHeader::Service { from_id: None, peer_id: Peer::User { user_id: 7 }, out: true };
    assert_eq!(outgoing.author_raw_id(me), RawPeerId(1));
    let incoming = RawMessageHeader::Message { from_id: None, peer_id: Peer::Channel { channel_id: 8 }, out: false };
    assert_eq!(incoming.author_raw_id(me), RawPeerId(8));
    assert_eq!(RawMessageHeader::Empty { peer_id: Some(Peer::Chat { chat_id: 3 }) }.author_raw_id(me), RawPeerId(3));
    assert_eq!(RawMessageHeader::Empty { peer_id: None }.author_raw_id(me), RawPeerId(1));
}

#[test]
fn photo_resolution_is_the_widest_size() {
    assert_eq!(photo_resolution(&[]), None);
    assert_eq!(photo_resolution(&[PhotoSize::Empty, PhotoSize::PhotoStrippedSize, PhotoSize::PhotoPathSize]), None);
    assert_eq!(
        photo_resolution(&[
            PhotoSize::Size { w: 320, h: 240 },
            PhotoSize::Progressive { w: 1280, h: 720 },
            PhotoSize::PhotoCachedSize { w: 90, h: 90 },
        ]),
        Some((1280, 720))
    );
    // Among equally wide sizes, the last one counts.
    assert_eq!(
        photo_resolution(&[PhotoSize::Size { w: 800, h: 600 }, PhotoSize::Progressive { w: 800, h: 601 }]),
        Some((800, 601))
    );
    assert_eq!(PhotoSize::Size { w: 2, h: 3 }.resolution(), Some((2, 3)));
}
