use chat_history_manager::cmp_result::EntityCmpResult;
use chat_history_manager::comparison::{
    compare_chats, compare_content, compare_lat_lon, compare_messages, compare_users, members_practically_equals,
    sets_are_equal, EntityCmp, EntityCmpTuple,
};
use chat_history_manager::equality::EqSide;
use chat_history_manager::facts::Facts;
use chat_history_manager::files::{DatasetRoot, FileEntry, FileIndex, FileMeta};
use chat_history_manager::ids::UserId;
use chat_history_manager::model::{
    Chat, ChatWithDetails, Content, ContentPhoto, ContentValue, Message, MessageRegular, MessageService,
    MessageServiceValue, MessageTyped, PbUuid, User,
};
use chat_history_manager::rich_text::RichText;

fn user(id: i64, first: &str) -> User {
    User {
        ds_uuid: PbUuid { value: "uuid".to_owned() },
        id,
        first_name_option: Some(first.to_owned()),
        last_name_option: None,
        username_option: None,
        phone_number_option: None,
        profile_pictures: vec![],
    }
}

fn chat(member_ids: Vec<i64>, img: Option<&str>) -> Chat {
    Chat {
        ds_uuid: PbUuid { value: "uuid".to_owned() },
        id: 7,
        name_option: Some("Chat".to_owned()),
        source_type: 0,
        tpe: 0,
        img_path_option: img.map(|s| s.to_owned()),
        member_ids,
        msg_count: 3,
        main_chat_id: None,
    }
}

fn cwd(members: Vec<User>) -> ChatWithDetails {
    ChatWithDetails { chat: chat(members.iter().map(|u| u.id).collect(), None), last_msg_option: None, members }
}

fn facts(files: Vec<(&str, u64, u128)>) -> Facts {
    Facts {
        files: FileIndex {
            entries: files
                .into_iter()
                .map(|(p, len, hash)| FileEntry { path: p.to_owned(), meta: FileMeta { len, hash } })
                .collect(),
        },
        numbers: vec![],
    }
}

fn photo(path: Option<&str>, width: i32) -> ContentPhoto {
    ContentPhoto { path_option: path.map(|s| s.to_owned()), width, height: 10, mime_type_option: None, is_one_time: false }
}

fn regular(text: &str, contents: Vec<Content>) -> Message {
    Message::new(
        1,
        Some(11),
        1000,
        UserId(1),
        vec![RichText::make_plain(text.to_owned())],
        MessageTyped::Regular(MessageRegular {
            edit_timestamp_option: None,
            is_deleted: false,
            forward_from_name_option: None,
            reply_to_message_id_option: None,
            contents,
        }),
    )
}

fn location(lat: &str, lon: &str) -> Content {
    Content {
        sealed_value_optional: Some(ContentValue::Location {
            title_option: None,
            address_option: None,
            lat_str: lat.to_owned(),
            lon_str: lon.to_owned(),
            duration_sec_option: None,
        }),
    }
}

#[test]
fn coordinates_ignore_trailing_zeros() {
    assert_eq!(compare_lat_lon("1.50", "1.5"), EntityCmpResult::Equal);
    assert_eq!(compare_lat_lon("12.500", "12.5"), EntityCmpResult::Equal);
    // Zeros are trimmed before the dot is, so "10" reads as "1"
    assert_eq!(compare_lat_lon("10.000", "10"), EntityCmpResult::LeftHasMore);
}

#[test]
fn longer_coordinate_is_more_precise() {
    assert_eq!(compare_lat_lon("1.5", "1.55"), EntityCmpResult::RightHasMore);
    assert_eq!(compare_lat_lon("1.5512", "1.55"), EntityCmpResult::LeftHasMore);
    assert_eq!(compare_lat_lon("", "1.5"), EntityCmpResult::RightHasMore);
    assert_eq!(compare_lat_lon("1.5", "0.000"), EntityCmpResult::LeftHasMore);
    assert_eq!(compare_lat_lon("0", ""), EntityCmpResult::Equal);
}

#[test]
fn different_coordinates_conflict() {
    assert_eq!(compare_lat_lon("1.5", "2.455"), EntityCmpResult::Conflict);
    assert_eq!(compare_lat_lon("1.5", "9.5"), EntityCmpResult::Conflict);
    assert_eq!(compare_lat_lon("52.1", "52.2"), EntityCmpResult::Conflict);
}

#[test]
fn users_are_compared_without_pictures() {
    let a = user(1, "Alice");
    let mut b = user(1, "Alice");
    b.profile_pictures.push(chat_history_manager::model::ProfilePicture { path: "p.jpg".to_owned(), frame_option: None });
    assert_eq!(compare_users(&a, &b), EntityCmpResult::Equal);
    assert_eq!(compare_users(&a, &user(1, "Bob")), EntityCmpResult::Conflict);
}

#[test]
fn chat_members_are_compared_as_sets() {
    let root = DatasetRoot("/ds".to_owned());
    let f = facts(vec![]);
    let side = EqSide { ds_root: &root, cwd: None, facts: &f };
    assert_eq!(compare_chats(&chat(vec![1, 2, 3], None), &side, &chat(vec![3, 1, 2], None), &side), EntityCmpResult::Equal);
    assert_eq!(compare_chats(&chat(vec![1, 2, 3], None), &side, &chat(vec![1, 2], None), &side), EntityCmpResult::Conflict);
    assert!(sets_are_equal(&[1, 2], &[2, 1]));
    assert!(!sets_are_equal(&[1, 3], &[1, 2]));
    // Only the values of the first list are looked for in the second
    assert!(sets_are_equal(&[1, 1], &[1, 2]));
}

#[test]
fn chat_images_are_compared_by_content() {
    let root1 = DatasetRoot("/ds1".to_owned());
    let root2 = DatasetRoot("/ds2".to_owned());
    let f1 = facts(vec![("/ds1/a.jpg", 5, 42)]);
    let f2 = facts(vec![("/ds2/other/b.jpg", 5, 42), ("/ds2/c.jpg", 5, 43)]);
    let s1 = EqSide { ds_root: &root1, cwd: None, facts: &f1 };
    let s2 = EqSide { ds_root: &root2, cwd: None, facts: &f2 };
    assert_eq!(
        compare_chats(&chat(vec![1], Some("a.jpg")), &s1, &chat(vec![1], Some("other/b.jpg")), &s2),
        EntityCmpResult::Equal
    );
    assert_eq!(
        compare_chats(&chat(vec![1], Some("a.jpg")), &s1, &chat(vec![1], Some("c.jpg")), &s2),
        EntityCmpResult::Conflict
    );
    // Both missing files are equal, one missing is a conflict
    assert_eq!(compare_chats(&chat(vec![1], None), &s1, &chat(vec![1], Some("nope.jpg")), &s2), EntityCmpResult::Equal);
    assert_eq!(compare_chats(&chat(vec![1], Some("a.jpg")), &s1, &chat(vec![1], None), &s2), EntityCmpResult::Conflict);
}

#[test]
fn photo_metadata_is_compared_only_when_files_match() {
    let root = DatasetRoot("/ds".to_owned());
    let f = facts(vec![("/ds/p1.jpg", 1, 1), ("/ds/p2.jpg", 1, 2)]);
    let side = EqSide { ds_root: &root, cwd: None, facts: &f };
    let c = |path: &str, width: i32| Content { sealed_value_optional: Some(ContentValue::Photo(photo(Some(path), width))) };
    assert_eq!(compare_content(&c("p1.jpg", 5), &side, &c("p1.jpg", 5), &side), EntityCmpResult::Equal);
    assert_eq!(compare_content(&c("p1.jpg", 5), &side, &c("p1.jpg", 6), &side), EntityCmpResult::Conflict);
    assert_eq!(compare_content(&c("p1.jpg", 5), &side, &c("p2.jpg", 5), &side), EntityCmpResult::Conflict);
}

#[test]
fn message_with_more_content_has_more() {
    let root = DatasetRoot("/ds".to_owned());
    let f = facts(vec![]);
    let side = EqSide { ds_root: &root, cwd: None, facts: &f };
    let plain = regular("hi", vec![]);
    let with_location = regular("hi", vec![location("1.5", "2.5")]);
    assert_eq!(compare_messages(&plain, &side, &plain, &side), EntityCmpResult::Equal);
    assert_eq!(compare_messages(&plain, &side, &with_location, &side), EntityCmpResult::RightHasMore);
    assert_eq!(compare_messages(&with_location, &side, &plain, &side), EntityCmpResult::LeftHasMore);
    let more_precise = regular("hi", vec![location("1.55", "2.5")]);
    assert_eq!(compare_messages(&with_location, &side, &more_precise, &side), EntityCmpResult::RightHasMore);
    let other_text = regular("hello", vec![location("1.5", "2.5")]);
    assert_eq!(compare_messages(&with_location, &side, &other_text, &side), EntityCmpResult::Conflict);
}

#[test]
fn italic_text_equals_bold() {
    let root = DatasetRoot("/ds".to_owned());
    let f = facts(vec![]);
    let side = EqSide { ds_root: &root, cwd: None, facts: &f };
    let mut a = regular("x", vec![]);
    let mut b = regular("x", vec![]);
    a.text = vec![RichText::make_italic("styled".to_owned())];
    b.text = vec![RichText::make_bold("styled".to_owned())];
    assert_eq!(compare_messages(&a, &side, &b, &side), EntityCmpResult::Equal);
}

#[test]
fn service_members_may_disappear_but_not_appear() {
    let members = vec![user(1, "Alice"), user(2, "Bob"), user(3, "Carol")];
    let cwd1 = cwd(vec![user(1, "Alice"), user(2, "Bob"), user(3, "Carol")]);
    let cwd2 = cwd(vec![user(1, "Alice"), user(2, "Bob")]);
    let names = |v: &[&str]| v.iter().map(|s| s.to_owned().to_owned()).collect::<Vec<String>>();
    // Same names
    assert!(members_practically_equals(&names(&["Alice", "Bob"]), &cwd1, &names(&["Alice", "Bob"]), &cwd2));
    // Carol is no longer known in the second chat
    assert!(members_practically_equals(&names(&["Alice", "Carol"]), &cwd1, &names(&["Alice", "Someone"]), &cwd2));
    // Bob appeared
    assert!(!members_practically_equals(&names(&["Alice", "Carol"]), &cwd1, &names(&["Alice", "Bob"]), &cwd2));
    // Different lengths
    assert!(!members_practically_equals(&names(&["Alice"]), &cwd1, &names(&["Alice", "Bob"]), &cwd2));
    drop(members);
}

#[test]
fn service_messages_compare_through_the_trait() {
    let root = DatasetRoot("/ds".to_owned());
    let f = facts(vec![]);
    let c = cwd(vec![user(1, "Alice")]);
    let service = |title: &str| {
        Message::new(
            2,
            None,
            5,
            UserId(1),
            vec![],
            MessageTyped::Service(MessageService {
                sealed_value_optional: Some(MessageServiceValue::GroupEditTitle { title: title.to_owned() }),
            }),
        )
    };
    let a = service("T");
    let b = service("T");
    let x = service("U");
    let ta = EntityCmpTuple::new(&a, &root, &c, &f);
    let tb = EntityCmpTuple::new(&b, &root, &c, &f);
    let tx = EntityCmpTuple::new(&x, &root, &c, &f);
    assert_eq!(ta.compare(&tb), EntityCmpResult::Equal);
    assert_eq!(ta.compare(&tx), EntityCmpResult::Conflict);
    let tu = ta.with(&c.members[0]);
    assert_eq!(tu.compare(&tu), EntityCmpResult::Equal);
}

#[test]
fn empty_todo_lists_are_equal() {
    let root = DatasetRoot("/ds".to_owned());
    let f = facts(vec![]);
    let side = EqSide { ds_root: &root, cwd: None, facts: &f };
    let todo = |items: Vec<&str>| Content {
        sealed_value_optional: Some(ContentValue::TodoList {
            title_option: Some("Plan".to_owned()),
            items: items.into_iter().map(|s| s.to_owned()).collect(),
        }),
    };
    assert_eq!(compare_content(&todo(vec![]), &side, &todo(vec![]), &side), EntityCmpResult::Equal);
    assert_eq!(compare_content(&todo(vec!["a"]), &side, &todo(vec!["a"]), &side), EntityCmpResult::Equal);
    assert_eq!(compare_content(&todo(vec![]), &side, &todo(vec!["a"]), &side), EntityCmpResult::Conflict);
}

#[test]
fn locations_with_different_coordinates_conflict() {
    let root = DatasetRoot("/r".to_owned());
    let f = facts(vec![]);
    let side = EqSide { ds_root: &root, cwd: None, facts: &f };
    assert_eq!(compare_content(&location("1.5", "2.5"), &side, &location("9.5", "2.5"), &side), EntityCmpResult::Conflict);
    assert_eq!(compare_content(&location("1.5", "2.5"), &side, &location("1.50", "2.5"), &side), EntityCmpResult::Equal);
    assert_eq!(compare_content(&location("1.5", "2.5"), &side, &location("1.55", "2.5"), &side), EntityCmpResult::RightHasMore);
}
