use chat_history_manager::ids::UserId;
use chat_history_manager::model::{
    Content, ContentPhoto, ContentValue, Message, MessageRegular, MessageService, MessageServiceValue, MessageTyped,
    RteVal,
};
use chat_history_manager::raw_mapping::{
    deserialize_arr, deserialize_bool, deserialize_content, deserialize_message, deserialize_rte, deserialize_service,
    serialize_arr, serialize_bool, serialize_content, serialize_message, serialize_rte, serialize_service,
    MappingError, RawRichTextElement,
};
use chat_history_manager::rich_text::RichText;

fn strings(v: &[&str]) -> Vec<String> {
    v.iter().map(|s| s.to_string()).collect()
}

#[test]
fn lists_are_joined_and_split() {
    assert_eq!(serialize_arr(&[]), None);
    assert_eq!(serialize_arr(&strings(&["a"])), Some("a".to_owned()));
    assert_eq!(serialize_arr(&strings(&["Ann", "Bob", "Cy"])), Some("Ann;;;Bob;;;Cy".to_owned()));
    assert_eq!(deserialize_arr(None), Vec::<String>::new());
    assert_eq!(deserialize_arr(Some(String::new())), Vec::<String>::new());
    assert_eq!(deserialize_arr(Some("Ann;;;Bob;;;Cy".to_owned())), strings(&["Ann", "Bob", "Cy"]));
    assert_eq!(deserialize_arr(Some("a;;;".to_owned())), strings(&["a", ""]));
    assert_eq!(deserialize_arr(Some("a;;;;b".to_owned())), strings(&["a", ";b"]));
}

#[test]
fn lists_without_semicolons_survive_a_round_trip() {
    for v in [strings(&["x"]), strings(&["", "y", ""]), strings(&["one two", "three"]), vec![]] {
        assert_eq!(deserialize_arr(serialize_arr(&v)), v);
    }
    // Where the law does not hold: a single empty string, and a trailing semicolon.
    assert_eq!(deserialize_arr(serialize_arr(&strings(&[""]))), Vec::<String>::new());
    assert_eq!(deserialize_arr(serialize_arr(&strings(&["a;", "b"]))), strings(&["a", ";b"]));
}

#[test]
fn flags_are_zero_and_one() {
    assert_eq!(serialize_bool(true), 1);
    assert_eq!(serialize_bool(false), 0);
    assert!(deserialize_bool(1));
    assert!(!deserialize_bool(0));
}

#[test]
fn rich_text_elements_survive_a_round_trip() {
    let elements = vec![
        RichText::make_plain("Hello".to_owned()),
        RichText::make_bold("b".to_owned()),
        RichText::make_spoiler("s".to_owned()),
        RichText::make_link(Some("site".to_owned()), "https://example.org".to_owned(), true),
        RichText::make_link(None, "https://example.org".to_owned(), false),
        RichText::make_prefmt_block("fn main() {}".to_owned(), Some("rust".to_owned())),
    ];
    for e in elements {
        let raw = serialize_rte(&e);
        assert!(raw.id.is_none() && raw.message_internal_id.is_none());
        let back = deserialize_rte(raw).unwrap();
        assert_eq!(format!("{:?}", back.val), format!("{:?}", e.val));
        assert_eq!(back.searchable_string, e.searchable_string);
    }
    let raw = serialize_rte(&RichText::make_link(None, "h".to_owned(), true));
    assert_eq!(raw.element_type, "link");
    assert_eq!(raw.hidden, Some(1));
    assert_eq!(raw.text, None);
    assert_eq!(raw.href.as_deref(), Some("h"));
}

fn raw(element_type: &str, text: Option<&str>, href: Option<&str>) -> RawRichTextElement {
    RawRichTextElement {
        id: Some(1),
        message_internal_id: Some(2),
        element_type: element_type.to_owned(),
        text: text.map(|s| s.to_owned()),
        href: href.map(|s| s.to_owned()),
        hidden: None,
        language: None,
    }
}

#[test]
fn malformed_rich_text_rows_are_errors() {
    assert_eq!(deserialize_rte(raw("plain", None, None)).unwrap_err(), MappingError::MissingText);
    assert_eq!(deserialize_rte(raw("link", Some("t"), None)).unwrap_err(), MappingError::MissingHref);
    assert_eq!(deserialize_rte(raw("marquee", Some("t"), None)).unwrap_err(), MappingError::UnknownRichTextElement);
    match deserialize_rte(raw("link", None, Some("h"))).unwrap().val {
        Some(RteVal::Link { text_option, href, hidden }) => {
            assert!(text_option.is_none());
            assert_eq!(href, "h");
            assert!(!hidden);
        }
        other => panic!("unexpected {other:?}"),
    }
}

fn s(v: &str) -> Option<String> {
    Some(v.to_owned())
}

fn contents() -> Vec<ContentValue> {
    vec![
        ContentValue::Sticker {
            path_option: s("st/1.webp"),
            file_name_option: None,
            width: 512,
            height: 512,
            mime_type_option: s("image/webp"),
            thumbnail_path_option: s("st/1_thumb.jpg"),
            emoji_option: s("🙂"),
        },
        ContentValue::Photo(ContentPhoto {
            path_option: s("ph/1.jpg"),
            width: 10,
            height: 20,
            mime_type_option: None,
            is_one_time: true,
        }),
        ContentValue::VoiceMsg {
            path_option: None,
            file_name_option: s("v.ogg"),
            mime_type: "audio/ogg".to_owned(),
            duration_sec_option: Some(3),
        },
        ContentValue::Audio {
            path_option: s("a.mp3"),
            file_name_option: None,
            title_option: s("Song"),
            performer_option: s("Band"),
            mime_type: "audio/mpeg".to_owned(),
            duration_sec_option: None,
            thumbnail_path_option: None,
        },
        ContentValue::VideoMsg {
            path_option: s("vm.mp4"),
            file_name_option: None,
            width: 240,
            height: 240,
            mime_type: "video/mp4".to_owned(),
            duration_sec_option: Some(12),
            thumbnail_path_option: None,
            is_one_time: false,
        },
        ContentValue::Video {
            path_option: None,
            file_name_option: None,
            title_option: None,
            performer_option: None,
            width: 1,
            height: 2,
            mime_type: "video/mp4".to_owned(),
            duration_sec_option: None,
            thumbnail_path_option: s("t.jpg"),
            is_one_time: true,
        },
        ContentValue::File {
            path_option: s("f.pdf"),
            file_name_option: s("f.pdf"),
            mime_type_option: s("application/pdf"),
            thumbnail_path_option: None,
        },
        ContentValue::Location {
            title_option: s("Cafe"),
            address_option: None,
            lat_str: "1.5".to_owned(),
            lon_str: "-2.25".to_owned(),
            duration_sec_option: Some(60),
        },
        ContentValue::Poll { question: "Why?".to_owned() },
        ContentValue::SharedContact {
            first_name_option: s("Ann"),
            last_name_option: None,
            phone_number_option: s("+123"),
            vcard_path_option: s("c.vcf"),
        },
    ]
}

#[test]
fn contents_survive_a_round_trip() {
    for v in contents() {
        let c = Content { sealed_value_optional: Some(v) };
        let (raw, _) = serialize_content(&c);
        let back = deserialize_content(raw).unwrap();
        assert_eq!(format!("{back:?}"), format!("{c:?}"));
    }
}

#[test]
fn stored_contents_name_their_type_and_files() {
    let all = contents();
    let (raw, files) = serialize_content(&Content { sealed_value_optional: Some(all.into_iter().next().unwrap()) });
    assert_eq!(raw.element_type, "sticker");
    assert_eq!(raw.width, Some(512));
    assert!(raw.lat.is_none() && raw.is_one_time.is_none());
    assert_eq!(files, vec!["st/1.webp".to_owned(), "st/1_thumb.jpg".to_owned()]);
    let (raw, files) = serialize_content(&Content { sealed_value_optional: Some(ContentValue::Poll { question: "q".to_owned() }) });
    assert_eq!(raw.element_type, "poll");
    assert_eq!(raw.poll_question.as_deref(), Some("q"));
    assert!(files.is_empty());
    let (raw, _) = serialize_content(&Content {
        sealed_value_optional: Some(ContentValue::Photo(ContentPhoto {
            path_option: None,
            width: 1,
            height: 1,
            mime_type_option: None,
            is_one_time: false,
        })),
    });
    assert_eq!(raw.is_one_time, Some(0));
}

#[test]
fn malformed_content_rows_are_errors() {
    let c = Content { sealed_value_optional: Some(ContentValue::Poll { question: "q".to_owned() }) };
    let (mut raw, _) = serialize_content(&c);
    raw.poll_question = None;
    assert_eq!(deserialize_content(raw).unwrap_err(), MappingError::MissingContentField);
    let (mut raw, _) = serialize_content(&c);
    raw.element_type = "hologram".to_owned();
    assert_eq!(deserialize_content(raw).unwrap_err(), MappingError::UnknownContentType);
    let photo = Content {
        sealed_value_optional: Some(ContentValue::Photo(ContentPhoto {
            path_option: None,
            width: 1,
            height: 1,
            mime_type_option: None,
            is_one_time: false,
        })),
    };
    let (mut raw, _) = serialize_content(&photo);
    raw.width = None;
    assert_eq!(deserialize_content(raw).unwrap_err(), MappingError::MissingContentField);
}

fn services() -> Vec<MessageServiceValue> {
    let photo = || ContentPhoto { path_option: s("ph/2.jpg"), width: 3, height: 4, mime_type_option: None, is_one_time: false };
    vec![
        MessageServiceValue::PhoneCall {
            duration_sec_option: Some(30),
            discard_reason_option: s("hangup"),
            members: strings(&["Ann", "Bob"]),
        },
        MessageServiceValue::PhoneCall { duration_sec_option: None, discard_reason_option: None, members: vec![] },
        MessageServiceValue::SuggestProfilePhoto { photo: photo() },
        MessageServiceValue::PinMessage { message_id: 42 },
        MessageServiceValue::ClearHistory,
        MessageServiceValue::BlockUser { is_blocked: true },
        MessageServiceValue::StatusTextChanged,
        MessageServiceValue::Notice,
        MessageServiceValue::GroupCreate { title: "Friends".to_owned(), members: strings(&["Ann"]) },
        MessageServiceValue::GroupEditTitle { title: "New".to_owned() },
        MessageServiceValue::GroupEditPhoto { photo: photo() },
        MessageServiceValue::GroupDeletePhoto,
        MessageServiceValue::GroupInviteMembers { members: strings(&["Cy", "Di"]) },
        MessageServiceValue::GroupRemoveMembers { members: strings(&["Cy"]) },
        MessageServiceValue::GroupMigrateFrom { title: "+123".to_owned() },
        MessageServiceValue::GroupMigrateTo,
    ]
}

#[test]
fn service_values_survive_a_round_trip() {
    for v in services() {
        let (subtype, row, _) = serialize_service(&v);
        let back = deserialize_service(subtype, row).unwrap();
        assert_eq!(format!("{back:?}"), format!("{v:?}"));
    }
}

#[test]
fn stored_service_values_name_their_subtype_and_files() {
    let all = services();
    let (subtype, row, files) = serialize_service(&all[0]);
    assert_eq!(subtype, "phone_call");
    let row = row.unwrap();
    assert_eq!(row.element_type, "phone_call");
    assert_eq!(row.members.as_deref(), Some("Ann;;;Bob"));
    assert!(files.is_empty());
    let (subtype, row, _) = serialize_service(&MessageServiceValue::Notice);
    assert_eq!(subtype, "notice");
    assert!(row.is_none());
    let (_, _, files) = serialize_service(&all[2]);
    assert_eq!(files, vec!["ph/2.jpg".to_owned()]);
}

#[test]
fn malformed_service_rows_are_errors() {
    assert_eq!(deserialize_service("pin_message", None).unwrap_err(), MappingError::MissingServiceContent);
    assert_eq!(deserialize_service("teleport", None).unwrap_err(), MappingError::UnknownServiceSubtype);
    let (_, row, _) = serialize_service(&MessageServiceValue::GroupEditTitle { title: "t".to_owned() });
    let mut row = row.unwrap();
    row.title = None;
    assert_eq!(deserialize_service("group_edit_title", Some(row)).unwrap_err(), MappingError::MissingServiceField);
    // An empty invitation list is stored as nothing, and is then found missing.
    let (subtype, row, _) = serialize_service(&MessageServiceValue::GroupInviteMembers { members: vec![] });
    assert_eq!(deserialize_service(subtype, row).unwrap_err(), MappingError::MissingServiceField);
}

fn regular_message() -> Message {
    Message::new(
        5,
        Some(50),
        1_600_000_000,
        UserId(7),
        vec![RichText::make_plain("see".to_owned()), RichText::make_bold("this".to_owned())],
        MessageTyped::Regular(MessageRegular {
            edit_timestamp_option: Some(1_600_000_100),
            is_deleted: true,
            forward_from_name_option: s("Ann"),
            reply_to_message_id_option: Some(49),
            contents: contents().into_iter().map(|v| Content { sealed_value_optional: Some(v) }).collect(),
        }),
    )
}

fn service_message(v: MessageServiceValue) -> Message {
    Message::new(6, None, 1_600_000_200, UserId(8), vec![], MessageTyped::Service(MessageService {
        sealed_value_optional: Some(v),
    }))
}

#[test]
fn stored_messages_keep_their_fields() {
    let m = regular_message();
    let (full, files) = serialize_message(&m, 3, &[1, 2, 3]);
    assert_eq!(full.m.internal_id, None);
    assert_eq!(full.m.ds_uuid, vec![1, 2, 3]);
    assert_eq!(full.m.chat_id, 3);
    assert_eq!(full.m.source_id, Some(50));
    assert_eq!(full.m.tpe, "regular");
    assert_eq!(full.m.subtype, None);
    assert_eq!(full.m.time_sent, 1_600_000_000);
    assert_eq!(full.m.time_edited, Some(1_600_000_100));
    assert_eq!(full.m.is_deleted, 1);
    assert_eq!(full.m.from_id, 7);
    assert_eq!(full.m.forward_from_name.as_deref(), Some("Ann"));
    assert_eq!(full.m.reply_to_message_id, Some(49));
    assert_eq!(full.m.searchable_string, m.searchable_string);
    assert_eq!(full.rtes.len(), 2);
    assert_eq!(full.rtes[1].element_type, "bold");
    assert_eq!(full.mc.len(), contents().len());
    assert_eq!(full.mc[0].element_type, "sticker");
    assert_eq!(files[0], "st/1.webp");

    let (full, files) = serialize_message(&service_message(MessageServiceValue::PinMessage { message_id: 42 }), 3, &[]);
    assert_eq!(full.m.tpe, "service");
    assert_eq!(full.m.subtype.as_deref(), Some("pin_message"));
    assert_eq!(full.m.is_deleted, 0);
    assert_eq!(full.mc.len(), 1);
    assert_eq!(full.mc[0].pinned_message_id, Some(42));
    assert!(files.is_empty());
    let (full, _) = serialize_message(&service_message(MessageServiceValue::Notice), 3, &[]);
    assert!(full.mc.is_empty());
}

#[test]
fn messages_survive_a_round_trip() {
    let mut all = vec![regular_message()];
    all.extend(services().into_iter().filter(|v| {
        !matches!(v, MessageServiceValue::GroupInviteMembers { members } | MessageServiceValue::GroupRemoveMembers { members } if members.is_empty())
    }).map(service_message));
    for m in all {
        let (mut full, _) = serialize_message(&m, 3, &[9]);
        full.m.internal_id = Some(m.internal_id);
        let back = deserialize_message(full).unwrap();
        assert_eq!(format!("{back:?}"), format!("{m:?}"));
    }
}

#[test]
fn malformed_messages_are_errors() {
    let (mut full, _) = serialize_message(&regular_message(), 3, &[]);
    full.m.internal_id = Some(1);
    full.m.tpe = "ghost".to_owned();
    assert_eq!(deserialize_message(full).unwrap_err(), MappingError::UnknownMessageType);

    let (mut full, _) = serialize_message(&regular_message(), 3, &[]);
    full.m.internal_id = Some(1);
    full.m.tpe = "ghost".to_owned();
    full.rtes[0].text = None;
    // Text elements are read first.
    assert_eq!(deserialize_message(full).unwrap_err(), MappingError::MissingText);

    let (mut full, _) = serialize_message(&regular_message(), 3, &[]);
    full.m.internal_id = Some(1);
    full.mc[0].element_type = "hologram".to_owned();
    assert_eq!(deserialize_message(full).unwrap_err(), MappingError::UnknownContentType);

    let (mut full, _) = serialize_message(&service_message(MessageServiceValue::PinMessage { message_id: 1 }), 3, &[]);
    full.m.internal_id = Some(1);
    full.mc.clear();
    assert_eq!(deserialize_message(full).unwrap_err(), MappingError::MissingServiceContent);
}
