use chat_history_manager::equality::{message_practically_equals_at, EqSide, PracticalEq, PracticalEqTuple};
use chat_history_manager::facts::{Facts, ParsedNumber};
use chat_history_manager::files::{DatasetRoot, FileIndex};
use chat_history_manager::ids::UserId;
use chat_history_manager::model::{
    Chat, ChatWithDetails, Content, ContentPhoto, ContentValue, Message, MessageRegular, MessageService,
    MessageServiceValue, MessageTyped, PbUuid,
};
use chat_history_manager::numbers::{i64_to_decimal, u64_to_decimal};
use chat_history_manager::rich_text::{normalize_searchable_string, RichText};
use chat_history_manager::rich_text_norm::{join_plain_runs, normalize_rich_text};
use chat_history_manager::model::RteVal;
use chat_history_manager::searchable::make_searchable_string;

fn regular(contents: Vec<Content>) -> MessageTyped {
    MessageTyped::Regular(MessageRegular {
        edit_timestamp_option: None,
        is_deleted: false,
        forward_from_name_option: Some("Someone".to_owned()),
        reply_to_message_id_option: None,
        contents,
    })
}

fn cwd() -> ChatWithDetails {
    ChatWithDetails {
        chat: Chat {
            ds_uuid: PbUuid { value: "uuid".to_owned() },
            id: 1,
            name_option: None,
            source_type: 0,
            tpe: 0,
            img_path_option: None,
            member_ids: vec![],
            msg_count: 0,
            main_chat_id: None,
        },
        last_msg_option: None,
        members: vec![],
    }
}

#[test]
fn searchable_strings_collapse_separators() {
    assert_eq!(normalize_searchable_string("  a\u{00A0}b\n\n c\u{200B}d  "), "a b c d");
    assert_eq!(normalize_searchable_string("plain"), "plain");
    assert_eq!(normalize_searchable_string(" \n "), "");
}

#[test]
fn rich_text_elements_carry_searchable_strings() {
    let e = RichText::make_bold(" x\ny ".to_owned());
    assert_eq!(e.searchable_string, "x y");
    assert_eq!(e.get_text(), Some(" x\ny "));
    let link = RichText::make_link(None, "https://example.com".to_owned(), false);
    assert_eq!(link.get_text(), None);
}

#[test]
fn message_searchable_string_joins_text_and_contents() {
    let text = vec![RichText::make_plain("Hello".to_owned()), RichText::make_plain("".to_owned()), RichText::make_bold("world".to_owned())];
    let typed = regular(vec![Content {
        sealed_value_optional: Some(ContentValue::Poll { question: "Why?".to_owned() }),
    }]);
    assert_eq!(make_searchable_string(&text, &typed), "Hello world Why?");
    let service = MessageTyped::Service(MessageService {
        sealed_value_optional: Some(MessageServiceValue::GroupCreate { title: "Team".to_owned(), members: vec!["Ann".to_owned(), "Bob".to_owned()] }),
    });
    assert_eq!(make_searchable_string(&vec![], &service), "Team Ann Bob");
}

#[test]
fn new_message_gets_its_searchable_string() {
    let m = Message::new(5, Some(6), 100, UserId(7), vec![RichText::make_plain("a  b".to_owned())], regular(vec![]));
    assert_eq!(m.searchable_string, "a b");
    assert_eq!(m.internal_id().0, 5);
    assert_eq!(m.timestamp().0, 100);
}

#[test]
fn message_files_are_listed() {
    let photo = Content {
        sealed_value_optional: Some(ContentValue::Photo(ContentPhoto {
            path_option: Some("photos/1.jpg".to_owned()),
            width: 1,
            height: 1,
            mime_type_option: None,
            is_one_time: false,
        })),
    };
    let video = Content {
        sealed_value_optional: Some(ContentValue::Video {
            path_option: Some("videos/v.mp4".to_owned()),
            file_name_option: Some("v.mp4".to_owned()),
            title_option: None,
            performer_option: None,
            width: 1,
            height: 1,
            mime_type: "video/mp4".to_owned(),
            duration_sec_option: None,
            thumbnail_path_option: Some("videos/v_thumb.jpg".to_owned()),
            is_one_time: false,
        }),
    };
    let m = Message::new(1, None, 0, UserId(1), vec![], regular(vec![photo, video]));
    assert_eq!(m.files_relative(), vec!["photos/1.jpg".to_owned(), "videos/v.mp4".to_owned(), "videos/v_thumb.jpg".to_owned()]);
    let root = DatasetRoot("/ds".to_owned());
    assert_eq!(m.files(&root), vec!["/ds/photos/1.jpg".to_owned(), "/ds/videos/v.mp4".to_owned(), "/ds/videos/v_thumb.jpg".to_owned()]);
}

#[test]
fn numbers_are_written_in_decimal() {
    assert_eq!(u64_to_decimal(0), "0");
    assert_eq!(u64_to_decimal(1234567890), "1234567890");
    assert_eq!(i64_to_decimal(-42), "-42");
    assert_eq!(i64_to_decimal(i64::MIN), "-9223372036854775808");
}

#[test]
fn practical_equality_ignores_ids_and_forwarded_name() {
    let root = DatasetRoot("/ds".to_owned());
    let facts = Facts { files: FileIndex { entries: vec![] }, numbers: vec![] };
    let c = cwd();
    let a = Message::new(1, Some(10), 100, UserId(3), vec![RichText::make_plain("hi".to_owned())], regular(vec![]));
    let mut b = Message::new(2, Some(99), 100, UserId(3), vec![RichText::make_plain("hi".to_owned())], regular(vec![]));
    if let Some(MessageTyped::Regular(r)) = &mut b.typed {
        r.forward_from_name_option = None;
    }
    let s = EqSide { ds_root: &root, cwd: Some(&c), facts: &facts };
    assert_eq!(message_practically_equals_at(&a, 100, &s, &b, &s), Ok(true));
    assert_eq!(message_practically_equals_at(&a, 101, &s, &b, &s), Ok(false));
    let ta = PracticalEqTuple::new(&a, &root, &c, &facts);
    let tb = ta.with(&b);
    assert_eq!(ta.practically_equals(&tb), Ok(true));
    let typed_a = ta.apply(|m: &Message| m.typed.as_ref().unwrap());
    let typed_b = tb.apply(|m: &Message| m.typed.as_ref().unwrap());
    assert_eq!(typed_a.practically_equals(&typed_b), Ok(true));
}

#[test]
fn coordinates_are_compared_as_parsed_numbers() {
    let root = DatasetRoot("/ds".to_owned());
    let numbers = vec![
        ParsedNumber { text: "1.50".to_owned(), bits: Some(1.5f64.to_bits()) },
        ParsedNumber { text: "1.5".to_owned(), bits: Some(1.5f64.to_bits()) },
        ParsedNumber { text: "2".to_owned(), bits: Some(2.0f64.to_bits()) },
    ];
    let facts = Facts { files: FileIndex { entries: vec![] }, numbers };
    let c = cwd();
    let loc = |lat: &str| Content {
        sealed_value_optional: Some(ContentValue::Location {
            title_option: None,
            address_option: None,
            lat_str: lat.to_owned(),
            lon_str: "2".to_owned(),
            duration_sec_option: None,
        }),
    };
    let a = Message::new(1, None, 1, UserId(1), vec![], regular(vec![loc("1.50")]));
    let b = Message::new(1, None, 1, UserId(1), vec![], regular(vec![loc("1.5")]));
    let x = Message::new(1, None, 1, UserId(1), vec![], regular(vec![loc("abc")]));
    let s = EqSide { ds_root: &root, cwd: Some(&c), facts: &facts };
    assert_eq!(message_practically_equals_at(&a, 1, &s, &b, &s), Ok(true));
    assert!(message_practically_equals_at(&a, 1, &s, &x, &s).is_err());
}

fn texts(rtes: &[chat_history_manager::model::RichTextElement]) -> Vec<String> {
    rtes.iter().map(|r| r.get_text().unwrap_or("").to_owned()).collect()
}

#[test]
fn normalize_rich_text_joins_plain_runs_and_trims() {
    let input = vec![
        RichText::make_plain("  ".to_owned()),
        RichText::make_plain(" a".to_owned()),
        RichText::make_plain("b ".to_owned()),
        RichText::make_bold(" ".to_owned()),
        RichText::make_italic("c  ".to_owned()),
        RichText::make_plain("\n".to_owned()),
    ];
    let out = normalize_rich_text(input);
    assert_eq!(texts(&out), vec!["ab ".to_owned(), " ".to_owned(), "c".to_owned()]);
    assert!(matches!(out[0].val, Some(RteVal::Plain { .. })));
    assert!(matches!(out[1].val, Some(RteVal::Bold { .. })));
    assert!(matches!(out[2].val, Some(RteVal::Italic { .. })));
}

#[test]
fn normalize_rich_text_of_blanks_is_empty() {
    let input = vec![RichText::make_plain(" \t".to_owned()), RichText::make_spoiler("\u{3000}".to_owned())];
    assert!(normalize_rich_text(input).is_empty());
}

#[test]
fn normalize_rich_text_keeps_preformatted_and_trims_links() {
    let pre = normalize_rich_text(vec![RichText::make_prefmt_inline("  x  ".to_owned())]);
    assert_eq!(texts(&pre), vec!["  x  ".to_owned()]);
    let link = normalize_rich_text(vec![RichText::make_link(Some(" t ".to_owned()), "https://t".to_owned(), false)]);
    assert_eq!(texts(&link), vec!["t".to_owned()]);
    let single = normalize_rich_text(vec![RichText::make_bold("  hi  ".to_owned())]);
    assert_eq!(texts(&single), vec!["hi".to_owned()]);
}

#[test]
fn join_plain_runs_recomputes_searchable_string() {
    let out = join_plain_runs(vec![RichText::make_plain("Hello ".to_owned()), RichText::make_plain(" world".to_owned())]);
    assert_eq!(out.len(), 1);
    assert_eq!(out[0].get_text(), Some("Hello  world"));
    assert_eq!(out[0].searchable_string, normalize_searchable_string("Hello  world"));
}

#[test]
fn normalize_rich_text_keeps_text_but_outer_whitespace() {
    let input = vec![
        RichText::make_plain("  a".to_owned()),
        RichText::make_bold(" b ".to_owned()),
        RichText::make_prefmt_inline(" c ".to_owned()),
        RichText::make_plain("d  ".to_owned()),
    ];
    let before: String = texts(&input).concat();
    let out = normalize_rich_text(input);
    let after: String = texts(&out).concat();
    assert_eq!(after, "a b  c d");
    assert_eq!(after, before.trim());
}
