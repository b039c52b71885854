use chat_history_manager::model::{PbUuid, User};
use chat_history_manager::telegram::{find_member, parse_full_export, JsonValue, TelegramError};

fn obj(members: Vec<(&str, JsonValue)>) -> JsonValue {
    JsonValue::Obj(members.into_iter().map(|(k, v)| (k.to_owned(), v)).collect())
}

fn st(s: &str) -> JsonValue {
    JsonValue::Str(s.to_owned())
}

fn blank_myself() -> User {
    User {
        ds_uuid: PbUuid { value: "00000000-0000-0000-0000-000000000000".to_owned() },
        id: 0,
        first_name_option: None,
        last_name_option: None,
        username_option: None,
        phone_number_option: None,
        profile_pictures: vec![],
    }
}

fn personal() -> JsonValue {
    obj(vec![
        ("user_id", JsonValue::Int(123456789)),
        ("first_name", st("Aaa")),
        ("last_name", st("Bbb")),
        ("username", st("aaabbb")),
        ("phone_number", st("00 1 (23) 45")),
        ("bio", st("Hello")),
    ])
}

fn chat(name: Option<&str>, id: i64) -> JsonValue {
    let mut m = vec![("id", JsonValue::Int(id)), ("type", st("personal_chat")), ("messages", JsonValue::Arr(vec![]))];
    if let Some(n) = name {
        m.push(("name", st(n)));
    }
    obj(m)
}

#[test]
fn export_sections_are_walked_in_order() {
    let root = obj(vec![
        ("about", st("Here is the data you requested.")),
        ("personal_information", personal()),
        ("contacts", obj(vec![("about", st("x")), ("list", JsonValue::Arr(vec![obj(vec![("first_name", st("C"))])]))])),
        ("frequent_contacts", obj(vec![])),
        ("chats", obj(vec![("about", st("y")), ("list", JsonValue::Arr(vec![chat(Some("Ddd"), 5), chat(None, 6)]))])),
        ("left_chats", obj(vec![])),
    ]);
    let mut me = blank_myself();
    let entries = parse_full_export(&root, &mut me).unwrap();
    assert_eq!(me.id, 123456789);
    assert_eq!(me.first_name_option.as_deref(), Some("Aaa"));
    assert_eq!(me.last_name_option.as_deref(), Some("Bbb"));
    assert_eq!(me.username_option.as_deref(), Some("aaabbb"));
    assert_eq!(me.phone_number_option.as_deref(), Some("+12345"));
    assert_eq!(entries.contacts.len(), 1);
    assert_eq!(entries.chats.len(), 2);
    match entries.chats[1] {
        JsonValue::Obj(fs) => assert!(matches!(find_member(fs, "id"), Some(JsonValue::Int(6)))),
        other => panic!("unexpected {other:?}"),
    }
}

#[test]
fn chats_need_personal_information_first() {
    let root = obj(vec![
        ("chats", obj(vec![("list", JsonValue::Arr(vec![]))])),
        ("personal_information", personal()),
    ]);
    let mut me = blank_myself();
    assert_eq!(parse_full_export(&root, &mut me).unwrap_err(), TelegramError::PersonalInfoMissing);
}

#[test]
fn personal_information_needs_a_user_id() {
    let root = obj(vec![("personal_information", obj(vec![("first_name", st("A"))]))]);
    let mut me = blank_myself();
    assert_eq!(parse_full_export(&root, &mut me).unwrap_err(), TelegramError::UserIdMissing);
}

#[test]
fn malformed_exports_are_errors() {
    let mut me = blank_myself();
    assert_eq!(parse_full_export(&JsonValue::Arr(vec![]), &mut me).unwrap_err(), TelegramError::NotAnObject);
    let root = obj(vec![("unexpected", JsonValue::Null)]);
    assert_eq!(parse_full_export(&root, &mut me).unwrap_err(), TelegramError::UnexpectedKey);
    let root = obj(vec![("personal_information", obj(vec![("user_id", st("1"))]))]);
    assert_eq!(parse_full_export(&root, &mut blank_myself()).unwrap_err(), TelegramError::WrongType);
    let root = obj(vec![("personal_information", personal()), ("chats", obj(vec![]))]);
    assert_eq!(parse_full_export(&root, &mut blank_myself()).unwrap_err(), TelegramError::ChatsListMissing);
    let root = obj(vec![("personal_information", personal()), ("chats", obj(vec![("list", JsonValue::Arr(vec![obj(vec![])]))]))]);
    assert_eq!(parse_full_export(&root, &mut blank_myself()).unwrap_err(), TelegramError::ChatIdMissing);
    let root = obj(vec![("contacts", obj(vec![("list", JsonValue::Null)]))]);
    assert_eq!(parse_full_export(&root, &mut blank_myself()).unwrap_err(), TelegramError::NotAnArray);
}
