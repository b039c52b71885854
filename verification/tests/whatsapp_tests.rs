use chat_history_manager::entity_utils::{EnumResolve, UnknownCode};
use chat_history_manager::model::{ContentValue, MessageTyped};
use chat_history_manager::whatsapp::{
    parse_regular_message, MessageRow, MessageType, RegularMessageError, VcardContact, CAPTION_COLUMN, TEXT_COLUMN,
};

fn row() -> MessageRow {
    MessageRow {
        file_path: None,
        media_name: None,
        width: None,
        height: None,
        mime_type: None,
        media_duration: None,
        vcard: None,
        latitude: None,
        longitude: None,
        place_name: None,
        place_address: None,
        live_location_share_duration: None,
        forward_score: None,
        parent_key_id: None,
        edited_timestamp: None,
        revoke_timestamp: None,
    }
}

fn keys() -> Vec<(String, i64)> {
    vec![("k1".to_owned(), 5), ("k2".to_owned(), 6)]
}

fn parse(r: MessageRow, tpe: MessageType) -> (chat_history_manager::model::MessageRegular, Option<&'static str>) {
    match parse_regular_message(r, tpe, &keys()) {
        Ok(Some((MessageTyped::Regular(reg), col))) => (reg, col),
        other => panic!("unexpected {other:?}"),
    }
}

#[test]
fn message_types_come_from_their_codes() {
    assert_eq!(MessageType::from_code(0), Some(MessageType::Text));
    assert_eq!(MessageType::from_code(15), Some(MessageType::Deleted));
    assert_eq!(MessageType::from_code(90), Some(MessageType::VideoCall));
    assert_eq!(MessageType::from_code(6), None);
}

#[test]
fn text_message_has_no_contents() {
    let (reg, col) = parse(row(), MessageType::Text);
    assert!(reg.contents.is_empty());
    assert_eq!(col, Some(TEXT_COLUMN));
    assert!(!reg.is_deleted);
    assert_eq!(reg.edit_timestamp_option, None);
    assert_eq!(reg.forward_from_name_option, None);
    assert_eq!(reg.reply_to_message_id_option, None);
}

#[test]
fn picture_keeps_its_size_and_drops_an_empty_mime_type() {
    let mut r = row();
    r.file_path = Some("Media/a.jpg".to_owned());
    r.width = Some(640);
    r.height = Some(480);
    r.mime_type = Some(String::new());
    let (reg, col) = parse(r, MessageType::Picture);
    assert_eq!(col, Some(TEXT_COLUMN));
    match &reg.contents[0].sealed_value_optional {
        Some(ContentValue::Photo(ph)) => {
            assert_eq!(ph.path_option.as_deref(), Some("Media/a.jpg"));
            assert_eq!((ph.width, ph.height), (640, 480));
            assert_eq!(ph.mime_type_option, None);
            assert!(!ph.is_one_time);
        }
        other => panic!("unexpected {other:?}"),
    }
}

#[test]
fn voice_message_takes_its_name_from_the_path() {
    let mut r = row();
    r.file_path = Some("Media/Voice/v.opus".to_owned());
    r.mime_type = Some("audio/ogg".to_owned());
    r.media_duration = Some(0);
    let (reg, _) = parse(r, MessageType::Audio);
    match &reg.contents[0].sealed_value_optional {
        Some(ContentValue::VoiceMsg { file_name_option, mime_type, duration_sec_option, .. }) => {
            assert_eq!(file_name_option.as_deref(), Some("v.opus"));
            assert_eq!(mime_type, "audio/ogg");
            assert_eq!(*duration_sec_option, None);
        }
        other => panic!("unexpected {other:?}"),
    }
}

#[test]
fn video_has_no_text_column() {
    let mut r = row();
    r.file_path = Some("noslash.mp4".to_owned());
    r.media_name = Some("clip.mp4".to_owned());
    r.width = Some(10);
    r.height = Some(20);
    r.mime_type = Some("video/mp4".to_owned());
    r.media_duration = Some(12);
    let (reg, col) = parse(r, MessageType::Video);
    assert_eq!(col, None);
    match &reg.contents[0].sealed_value_optional {
        Some(ContentValue::VideoMsg { file_name_option, duration_sec_option, is_one_time, .. }) => {
            assert_eq!(file_name_option.as_deref(), Some("clip.mp4"));
            assert_eq!(*duration_sec_option, Some(12));
            assert!(!is_one_time);
        }
        other => panic!("unexpected {other:?}"),
    }
}

#[test]
fn sticker_is_doubled_until_a_side_reaches_256() {
    let mut r = row();
    r.width = Some(64);
    r.height = Some(32);
    let (reg, _) = parse(r, MessageType::AnimatedSticker);
    match &reg.contents[0].sealed_value_optional {
        Some(ContentValue::Sticker { width, height, .. }) => assert_eq!((*width, *height), (256, 128)),
        other => panic!("unexpected {other:?}"),
    }
    let mut r = row();
    r.width = Some(300);
    r.height = Some(10);
    let (reg, _) = parse(r, MessageType::AnimatedSticker);
    match &reg.contents[0].sealed_value_optional {
        Some(ContentValue::Sticker { width, height, .. }) => assert_eq!((*width, *height), (300, 10)),
        other => panic!("unexpected {other:?}"),
    }
    let mut r = row();
    r.width = Some(-1);
    r.height = Some(1);
    let (reg, _) = parse(r, MessageType::AnimatedSticker);
    match &reg.contents[0].sealed_value_optional {
        Some(ContentValue::Sticker { width, height, .. }) => assert_eq!((*width, *height), (-256, 256)),
        other => panic!("unexpected {other:?}"),
    }
}

#[test]
fn document_text_is_in_the_caption() {
    let mut r = row();
    r.file_path = Some("Media/Docs/report.pdf".to_owned());
    r.mime_type = Some("application/pdf".to_owned());
    let (reg, col) = parse(r, MessageType::Document);
    assert_eq!(col, Some(CAPTION_COLUMN));
    match &reg.contents[0].sealed_value_optional {
        Some(ContentValue::File { file_name_option, mime_type_option, .. }) => {
            assert_eq!(file_name_option.as_deref(), Some("report.pdf"));
            assert_eq!(mime_type_option.as_deref(), Some("application/pdf"));
        }
        other => panic!("unexpected {other:?}"),
    }
}

#[test]
fn coordinates_keep_eight_digits_after_the_point() {
    let mut r = row();
    r.latitude = Some("12.3456789012".to_owned());
    r.longitude = Some("-5.1".to_owned());
    r.place_name = Some("Cafe".to_owned());
    let (reg, col) = parse(r, MessageType::StaticLocation);
    assert_eq!(col, Some(TEXT_COLUMN));
    match &reg.contents[0].sealed_value_optional {
        Some(ContentValue::Location { title_option, lat_str, lon_str, .. }) => {
            assert_eq!(title_option.as_deref(), Some("Cafe"));
            assert_eq!(lat_str, "12.34567890");
            assert_eq!(lon_str, "-5.1");
        }
        other => panic!("unexpected {other:?}"),
    }
    let mut r = row();
    r.longitude = Some("1.0".to_owned());
    assert!(matches!(
        parse_regular_message(r, MessageType::LiveLocation, &keys()),
        Err(RegularMessageError::MissingCoordinates)
    ));
}

#[test]
fn vcard_becomes_a_shared_contact() {
    let mut r = row();
    r.vcard = Some(VcardContact { full_name: "Ann Lee".to_owned(), phone_number: "+100".to_owned() });
    let (reg, col) = parse(r, MessageType::ContactVcard);
    assert_eq!(col, None);
    match &reg.contents[0].sealed_value_optional {
        Some(ContentValue::SharedContact { first_name_option, phone_number_option, .. }) => {
            assert_eq!(first_name_option.as_deref(), Some("Ann Lee"));
            assert_eq!(phone_number_option.as_deref(), Some("+100"));
        }
        other => panic!("unexpected {other:?}"),
    }
    assert!(matches!(
        parse_regular_message(row(), MessageType::ContactVcard, &keys()),
        Err(RegularMessageError::MissingVcard)
    ));
}

#[test]
fn deleted_message_is_edited_at_its_revocation() {
    let mut r = row();
    r.revoke_timestamp = Some(1_700_000_000_123);
    r.edited_timestamp = Some(5_000);
    let (reg, _) = parse(r, MessageType::Deleted);
    assert!(reg.is_deleted);
    assert_eq!(reg.edit_timestamp_option, Some(1_700_000_000));
    let mut r = row();
    r.edited_timestamp = Some(-1_999);
    let (reg, _) = parse(r, MessageType::Text);
    assert_eq!(reg.edit_timestamp_option, Some(-1));
}

#[test]
fn forwards_and_replies() {
    let mut r = row();
    r.forward_score = Some(3);
    r.parent_key_id = Some("k2".to_owned());
    let (reg, _) = parse(r, MessageType::Text);
    assert_eq!(reg.forward_from_name_option.as_deref(), Some("[someone]"));
    assert_eq!(reg.reply_to_message_id_option, Some(6));
    let mut r = row();
    r.parent_key_id = Some("zz".to_owned());
    let (reg, _) = parse(r, MessageType::Text);
    assert_eq!(reg.reply_to_message_id_option, None);
}

#[test]
fn uninteresting_types_are_skipped() {
    for tpe in [MessageType::WaitingForMessage, MessageType::BusinessItem, MessageType::DisappearTimerSet] {
        assert!(matches!(parse_regular_message(row(), tpe, &keys()), Ok(None)));
    }
}

#[test]
fn unknown_codes_do_not_resolve() {
    assert_eq!(MessageType::resolve(1), Ok(MessageType::Picture));
    assert_eq!(MessageType::resolve(6), Err(UnknownCode { code: 6 }));
}
