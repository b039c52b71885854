use chat_history_manager::cmp_result::EntityCmpResult;
use chat_history_manager::entity_utils::ShortUser;
use chat_history_manager::files::{files_are_equal, DatasetRoot, FileEntry, FileIndex, FileMeta, RelativePathError};
use chat_history_manager::ids::{MasterInternalId, SlaveInternalId, UserId};
use chat_history_manager::loaders::{ensure_file_presence, normalize_phone_number, uuid_to_i64_pos, LoaderError, NoChooser, RequestError, TinderAndroidDataLoader, UserInputRequester, WhatsAppAndroidDataLoader};
use chat_history_manager::master_slave::{MasterMessage, SlaveMessage, WithTypedId};
use chat_history_manager::model::{Chat, ChatWithDetails, ChatWithMessages, Message, PbUuid, User};
use chat_history_manager::text::{name_or_unnamed, name_or_unnamed_str};
use chat_history_manager::ui::Hello;

fn user(id: i64, first: Option<&str>, last: Option<&str>) -> User {
    User {
        ds_uuid: PbUuid { value: "uuid".to_owned() },
        id,
        first_name_option: first.map(|s| s.to_owned()),
        last_name_option: last.map(|s| s.to_owned()),
        username_option: None,
        phone_number_option: None,
        profile_pictures: vec![],
    }
}

fn bare_message(id: i64, source_id: Option<i64>) -> Message {
    Message {
        internal_id: id,
        source_id_option: source_id,
        timestamp: 0,
        from_id: 1,
        text: vec![],
        searchable_string: String::new(),
        typed: None,
    }
}

#[test]
fn missing_names_are_unnamed() {
    assert_eq!(name_or_unnamed(&None), "[unnamed]");
    assert_eq!(name_or_unnamed(&Some("Bob".to_owned())), "Bob");
    assert_eq!(name_or_unnamed_str(None), "[unnamed]");
}

#[test]
fn chat_qualified_name() {
    let mut chat = Chat {
        ds_uuid: PbUuid { value: "uuid".to_owned() },
        id: -42,
        name_option: Some("Friends".to_owned()),
        source_type: 0,
        tpe: 0,
        img_path_option: None,
        member_ids: vec![1, 2],
        msg_count: 0,
        main_chat_id: None,
    };
    assert_eq!(chat.qualified_name(), "'Friends' (#-42)");
    chat.name_option = None;
    chat.id = 7;
    assert_eq!(chat.qualified_name(), "'[unnamed]' (#7)");
    assert_eq!(chat.member_ids(), vec![UserId(1), UserId(2)]);
}

#[test]
fn members_are_resolved_by_pretty_name() {
    let cwd = ChatWithDetails {
        chat: Chat {
            ds_uuid: PbUuid { value: "uuid".to_owned() },
            id: 1,
            name_option: None,
            source_type: 0,
            tpe: 0,
            img_path_option: None,
            member_ids: vec![1, 2, 3],
            msg_count: 0,
            main_chat_id: None,
        },
        last_msg_option: None,
        members: vec![user(1, Some("Me"), None), user(2, Some("Ann"), Some("Lee")), user(3, Some("Ann"), Some("Lee"))],
    };
    assert_eq!(cwd.resolve_member_index("Ann Lee"), Some(1));
    assert_eq!(cwd.resolve_member("Me").map(|u| u.id), Some(1));
    let names = vec!["Ann Lee".to_owned(), "Nobody".to_owned(), "Me".to_owned()];
    let resolved: Vec<Option<i64>> = cwd.resolve_members(&names).iter().map(|o| o.map(|u| u.id)).collect();
    assert_eq!(resolved, vec![Some(2), None, Some(1)]);
    assert_eq!(cwd.resolve_member_ids(&names), vec![Some(2), None, Some(1)]);
}

#[test]
fn short_user_becomes_user() {
    let u = ShortUser::new_name_str(UserId(5), "Full Name").to_user(&PbUuid { value: "ds".to_owned() });
    assert_eq!(u.id, 5);
    assert_eq!(u.first_name_option, Some("Full Name".to_owned()));
    assert_eq!(u.pretty_name(), "Full Name");
    let d = ShortUser::default();
    assert_eq!(d.id, UserId(0));
    assert!(d.full_name_option.is_none());
}

#[test]
fn paths_are_made_absolute_and_relative_again() {
    let root = DatasetRoot("/data/ds".to_owned());
    let abs = root.to_absolute("media/a.jpg");
    assert_eq!(abs, "/data/ds/media/a.jpg");
    assert_eq!(root.to_relative(&abs), Ok("media/a.jpg".to_owned()));
    assert_eq!(root.to_relative("/elsewhere/a.jpg"), Err(RelativePathError::NotUnderRoot));
}

#[test]
fn files_are_equal_by_size_and_hash() {
    let idx1 = FileIndex { entries: vec![FileEntry { path: "/a/x".to_owned(), meta: FileMeta { len: 3, hash: 9 } }] };
    let idx2 = FileIndex {
        entries: vec![
            FileEntry { path: "/b/y".to_owned(), meta: FileMeta { len: 3, hash: 9 } },
            FileEntry { path: "/b/z".to_owned(), meta: FileMeta { len: 4, hash: 9 } },
        ],
    };
    assert!(files_are_equal(&idx1, "/a/x", &idx2, "/b/y"));
    assert!(!files_are_equal(&idx1, "/a/x", &idx2, "/b/z"));
    assert!(files_are_equal(&idx1, "/a/none", &idx2, "/b/none"));
    assert!(!files_are_equal(&idx1, "/a/x", &idx2, "/b/none"));
}

#[test]
fn master_and_slave_messages_are_equal_by_ids() {
    assert!(MasterMessage(bare_message(1, Some(2))) == MasterMessage(bare_message(1, Some(2))));
    assert!(MasterMessage(bare_message(1, Some(2))) != MasterMessage(bare_message(1, None)));
    assert!(SlaveMessage(bare_message(3, None)) == SlaveMessage(bare_message(3, None)));
    assert_eq!(MasterMessage(bare_message(4, None)).typed_id(), MasterInternalId(4));
    assert_eq!(SlaveMessage(bare_message(5, None)).typed_id(), SlaveInternalId(5));
    assert_eq!(MasterInternalId(4).generalize().0, 4);
}

#[test]
fn chained_outcomes() {
    assert_eq!(EntityCmpResult::chain(vec![EntityCmpResult::Equal, EntityCmpResult::Equal]), EntityCmpResult::Equal);
    assert_eq!(EntityCmpResult::chain(vec![EntityCmpResult::Equal, EntityCmpResult::LeftHasMore, EntityCmpResult::Equal]), EntityCmpResult::LeftHasMore);
    assert_eq!(EntityCmpResult::chain(vec![EntityCmpResult::RightHasMore, EntityCmpResult::Equal, EntityCmpResult::RightHasMore]), EntityCmpResult::RightHasMore);
    assert_eq!(EntityCmpResult::chain(vec![EntityCmpResult::LeftHasMore, EntityCmpResult::RightHasMore]), EntityCmpResult::Conflict);
    assert_eq!(EntityCmpResult::chain(vec![EntityCmpResult::Conflict, EntityCmpResult::Equal]), EntityCmpResult::Conflict);
    assert_eq!(EntityCmpResult::chain(vec![EntityCmpResult::RightHasMore, EntityCmpResult::LeftHasMore]), EntityCmpResult::chain(vec![EntityCmpResult::LeftHasMore, EntityCmpResult::RightHasMore]));
    assert!(EntityCmpResult::Equal.is_eq() && EntityCmpResult::Conflict.is_conflict() && EntityCmpResult::LeftHasMore.is_left_more() && EntityCmpResult::RightHasMore.is_right_more());
    assert_eq!(EntityCmpResult::from_bool(false), EntityCmpResult::Conflict);
}

#[test]
fn missing_file_is_reported() {
    assert_eq!(ensure_file_presence("/x/y.db", true).ok(), Some("/x/y.db"));
    match ensure_file_presence("/x/y.db", false) {
        Err(LoaderError::FileNotFound { path }) => assert_eq!(path, "/x/y.db"),
        other => panic!("unexpected {other:?}"),
    }
}

#[test]
fn no_chooser_refuses_every_request() {
    assert_eq!(NoChooser.choose_myself(&vec![user(1, None, None)]), Err(RequestError::CannotChooseMyself));
    assert_eq!(NoChooser.ask_for_text("?"), Err(RequestError::CannotAskUser));
    assert_eq!(RequestError::CannotChooseMyself.message(), "No way to choose myself!");
    assert_eq!(RequestError::CannotAskUser.message(), "No way to ask user!");
}

#[test]
fn hello_greets_by_name() {
    assert_eq!(Hello { name: "World".to_owned() }.greeting(), "Hello World!");
    assert_eq!(Hello::default().greeting(), "Hello !");
}

#[test]
fn whatsapp_users_are_filtered_and_sorted() {
    let users = vec![user(3, Some("A"), None), user(9, Some("B"), None), user(5, Some("Me"), None), user(1, Some("C"), None)];
    let cwms = vec![ChatWithMessages {
        chat: Chat {
            ds_uuid: PbUuid { value: "uuid".to_owned() },
            id: 1,
            name_option: None,
            source_type: 0,
            tpe: 0,
            img_path_option: None,
            member_ids: vec![5, 3, 1],
            msg_count: 0,
            main_chat_id: None,
        },
        messages: vec![],
    }];
    let res = WhatsAppAndroidDataLoader.normalize_users(users, UserId(5), &cwms);
    let ids: Vec<i64> = res.iter().map(|u| u.id).collect();
    assert_eq!(ids, vec![5, 1, 3]);
}

#[test]
fn normalize_phone_number_to_e164() {
    assert_eq!(normalize_phone_number("+1 202-555-0123"), "+12025550123");
    assert_eq!(normalize_phone_number("0044 20 7946 0958"), "+442079460958");
}

#[test]
fn normalize_phone_number_keeps_digits_of_unparsable() {
    assert_eq!(normalize_phone_number("12-34 (5)"), "12345");
    assert_eq!(normalize_phone_number("no number"), "");
}

#[test]
fn uuid_to_i64_pos_adds_halves_with_wraparound() {
    assert_eq!(uuid_to_i64_pos(&[0; 16]), 0);
    let mut b = [0u8; 16];
    b[0] = 1;
    b[8] = 2;
    assert_eq!(uuid_to_i64_pos(&b), 1);
    assert_eq!(uuid_to_i64_pos(&[0xFF; 16]), i64::MAX);
    let b: [u8; 16] = [0x12, 0x34, 0x56, 0x78, 0x9A, 0xBC, 0xDE, 0xF0, 0x0F, 0xED, 0xCB, 0xA9, 0x87, 0x65, 0x43, 0x21];
    let lo = u64::from_le_bytes(b[0..8].try_into().unwrap());
    let hi = u64::from_le_bytes(b[8..16].try_into().unwrap());
    assert_eq!(uuid_to_i64_pos(&b), (lo.wrapping_add(hi) / 2) as i64);
}

#[test]
fn random_uuids_are_hyphenated_lowercase_version_4() {
    let a = PbUuid::random();
    let b = PbUuid::random();
    assert_ne!(a.value, b.value);
    for u in [a, b] {
        let cs: Vec<char> = u.value.chars().collect();
        assert_eq!(cs.len(), 36);
        for (i, c) in cs.iter().enumerate() {
            if [8, 13, 18, 23].contains(&i) {
                assert_eq!(*c, '-');
            } else {
                assert!(c.is_ascii_digit() || ('a'..='f').contains(c), "{c} at {i}");
            }
        }
        assert_eq!(cs[14], '4');
        assert!(['8', '9', 'a', 'b'].contains(&cs[19]));
    }
}

#[test]
fn tinder_users_keep_everyone_myself_first() {
    let users = vec![user(30, Some("C"), None), user(5, Some("Me"), None), user(10, Some("A"), None), user(20, None, None)];
    let res = TinderAndroidDataLoader.normalize_users(users, UserId(5));
    let ids: Vec<i64> = res.iter().map(|u| u.id).collect();
    assert_eq!(ids, vec![5, 10, 20, 30]);
}
