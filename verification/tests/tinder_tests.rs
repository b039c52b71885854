use chat_history_manager::model::{ContentValue, MessageTyped, PbUuid, User};
use chat_history_manager::rich_text::RichText;
use chat_history_manager::tinder::{
    tinder_chat, tinder_message, tinder_message_from, TinderError, RELATIVE_MEDIA_DIR, TINDER_MYSELF_ID,
};
use chat_history_manager::utils::hash_to_id;

const GIF: &str = "https://media.tenor.com/mYFQztB4EHoAAAAC/house-hugh-laurie.gif?width=271&height=279";

fn sticker_of(m: &chat_history_manager::model::Message) -> &ContentValue {
    match m.typed.as_ref().unwrap() {
        MessageTyped::Regular(mr) => mr.contents[0].sealed_value_optional.as_ref().unwrap(),
        _ => panic!("not regular"),
    }
}

#[test]
fn plain_text_messages() {
    let (m, file) = tinder_message_from(7, 8, 1_699_812_983_500, false, 780, "Sending you a text!".to_owned()).unwrap();
    assert_eq!(file, None);
    assert_eq!(m.internal_id, -1);
    assert_eq!(m.source_id_option, Some(7));
    assert_eq!(m.timestamp, 1_699_812_983);
    assert_eq!(m.from_id, TINDER_MYSELF_ID);
    assert_eq!(format!("{:?}", m.text), format!("{:?}", vec![RichText::make_plain("Sending you a text!".to_owned())]));
    assert_eq!(m.searchable_string, "Sending you a text!");
    let (m, _) = tinder_message_from(7, 8, 0, true, 780, "  hi  ".to_owned()).unwrap();
    assert_eq!(m.from_id, 780);
    assert_eq!(format!("{:?}", m.text), format!("{:?}", vec![RichText::make_plain("hi".to_owned())]));
}

#[test]
fn tenor_links_become_stickers_at_twice_their_size() {
    let (m, file) = tinder_message(
        "0123456789abcdef0123456789abcdef0123456789abcdef",
        1_699_813_000_000,
        true,
        780,
        GIF.to_owned(),
    )
    .unwrap();
    let name = format!("{}.gif", hash_to_id(GIF));
    assert_eq!(file.as_deref(), Some(name.as_str()));
    assert!(m.text.is_empty());
    assert_eq!(m.searchable_string, "");
    assert_eq!(m.from_id, 780);
    assert_eq!(m.timestamp, 1_699_813_000);
    match sticker_of(&m) {
        ContentValue::Sticker { path_option, file_name_option, width, height, mime_type_option, .. } => {
            assert_eq!(path_option.as_deref(), Some(format!("{RELATIVE_MEDIA_DIR}/{name}").as_str()));
            assert_eq!(file_name_option.as_deref(), Some(name.as_str()));
            assert_eq!((*width, *height), (542, 558));
            assert_eq!(*mime_type_option, None);
        },
        _ => panic!("not a sticker"),
    }
}

#[test]
fn gif_file_is_named_after_the_hash_of_its_link() {
    // On a 64-bit machine, as the original loader named it.
    if usize::BITS == 64 {
        assert_eq!(hash_to_id(GIF), 848013095925873688);
    }
    let (_, file) = tinder_message_from(1, 42, 0, false, 2, GIF.to_owned()).unwrap();
    assert_eq!(file.as_deref(), Some("42.gif"));
}

#[test]
fn missing_and_malformed_sizes() {
    let (m, _) = tinder_message_from(1, 2, 0, false, 3, "https://media.tenor.com/x.gif".to_owned()).unwrap();
    match sticker_of(&m) {
        ContentValue::Sticker { width, height, .. } => assert_eq!((*width, *height), (0, 0)),
        _ => panic!("not a sticker"),
    }
    let (m, _) = tinder_message_from(1, 2, 0, false, 3, "https://media.tenor.com/x.gif?a=1&height=+5&width=-3&width=9".to_owned()).unwrap();
    match sticker_of(&m) {
        ContentValue::Sticker { width, height, .. } => assert_eq!((*width, *height), (-6, 10)),
        _ => panic!("not a sticker"),
    }
    let r = tinder_message_from(1, 2, 0, false, 3, "https://media.tenor.com/x.gif?width=big".to_owned());
    assert_eq!(r.unwrap_err(), TinderError::BadSize);
    let r = tinder_message_from(1, 2, 0, false, 3, "https://media.tenor.com/x.gif?width=1&height=".to_owned());
    assert_eq!(r.unwrap_err(), TinderError::BadSize);
    // Not a Tenor link: the text stays as it is.
    let (m, file) = tinder_message_from(1, 2, 0, false, 3, "https://example.com/x.gif?width=big".to_owned()).unwrap();
    assert_eq!(file, None);
    assert_eq!(m.text.len(), 1);
}

#[test]
fn chats_hold_myself_and_the_person() {
    let ds = PbUuid { value: "00000000-0000-0000-0000-000000000000".to_owned() };
    let user = User {
        ds_uuid: ds.clone(),
        id: 780,
        first_name_option: Some("Abcde".to_owned()),
        last_name_option: None,
        username_option: None,
        phone_number_option: None,
        profile_pictures: vec![],
    };
    let msgs = vec![
        tinder_message_from(1, 2, 1_000, false, 780, "a".to_owned()).unwrap().0,
        tinder_message_from(3, 4, 2_000, true, 780, "b".to_owned()).unwrap().0,
    ];
    let cwm = tinder_chat(&ds, &user, msgs, 9, 1);
    assert_eq!(cwm.chat.member_ids, vec![TINDER_MYSELF_ID, 780]);
    assert_eq!(cwm.chat.msg_count, 2);
    assert_eq!(cwm.chat.id, 780);
    assert_eq!(cwm.chat.name_option.as_deref(), Some("Abcde"));
    assert_eq!(cwm.chat.source_type, 9);
    assert_eq!(cwm.chat.tpe, 1);
    assert_eq!(cwm.chat.img_path_option, None);
    let ids: Vec<i64> = cwm.messages.iter().map(|m| m.internal_id).collect();
    assert_eq!(ids, vec![0, 1]);
    assert_eq!(cwm.messages[1].source_id_option, Some(3));
}
