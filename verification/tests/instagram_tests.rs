use chat_history_manager::instagram::{
    fix_encoding, instagram_message, InstagramMessage, InstagramReaction, InstagramShare, InstagramVideo,
};
use chat_history_manager::model::{ContentValue, Message, MessageTyped, RteVal};

fn msg(content: Option<&str>) -> InstagramMessage {
    InstagramMessage {
        sender_name: "Ann".to_owned(),
        timestamp_ms: 1_700_000_000_123,
        content: content.map(|s| s.to_owned()),
        share: None,
        photos: vec![],
        videos: vec![],
        audio_files: vec![],
        reactions: vec![],
    }
}

fn texts(m: &Message) -> Vec<String> {
    m.text
        .iter()
        .map(|e| match e.val.as_ref().unwrap() {
            RteVal::Plain { text } => text.clone(),
            RteVal::Link { text_option, href, .. } => format!("<{}|{}>", text_option.clone().unwrap_or_default(), href),
            other => format!("{other:?}"),
        })
        .collect()
}

fn contents(m: &Message) -> &Vec<chat_history_manager::model::Content> {
    match m.typed.as_ref().unwrap() {
        MessageTyped::Regular(mr) => &mr.contents,
        _ => panic!("not regular"),
    }
}

#[test]
fn garbled_text_is_fixed() {
    assert_eq!(fix_encoding("Ã©tÃ©"), "été");
    assert_eq!(fix_encoding("plain"), "plain");
    // Not UTF-8 as bytes: kept as it is.
    assert_eq!(fix_encoding("Ã"), "Ã");
    // Characters beyond one byte keep their low byte only, as the export is read.
    assert_eq!(fix_encoding("Привет"), "\u{1f}@825B");
}

#[test]
fn text_messages() {
    let m = instagram_message(&msg(Some("Hi Ã©")), 42).unwrap();
    assert_eq!(texts(&m), vec!["Hi é".to_owned()]);
    assert_eq!(m.from_id, 42);
    assert_eq!(m.timestamp, 1_700_000_000);
    assert_eq!(m.source_id_option, None);
    assert_eq!(m.internal_id, -1);
    assert!(contents(&m).is_empty());
}

#[test]
fn likes_and_empty_messages_are_skipped() {
    assert!(instagram_message(&msg(Some("Liked a message")), 1).is_none());
    assert!(instagram_message(&msg(None), 1).is_none());
    assert!(instagram_message(&msg(Some("Ann sent an attachment.")), 1).is_none());
    // Reactions alone do not keep a message.
    let mut m = msg(None);
    m.reactions = vec![InstagramReaction { reaction: "x".to_owned(), actor: "Bob".to_owned() }];
    assert!(instagram_message(&m, 1).is_none());
}

#[test]
fn attachments_shares_and_live_locations() {
    let mut m = msg(Some("You sent an attachment."));
    m.photos = vec!["photos/1.jpg".to_owned()];
    m.videos = vec![InstagramVideo { uri: "videos/2.mp4".to_owned(), thumbnail: Some("thumbs/2.jpg".to_owned()) }];
    m.audio_files = vec!["audio/3.mp4".to_owned()];
    m.share = Some(InstagramShare { link: "https://instagram.com/p/1".to_owned(), share_text: "".to_owned() });
    let r = instagram_message(&m, 1).unwrap();
    assert_eq!(texts(&r), vec!["<|https://instagram.com/p/1>".to_owned()]);
    let cs = contents(&r);
    assert_eq!(cs.len(), 3);
    match cs[0].sealed_value_optional.as_ref().unwrap() {
        ContentValue::Photo(p) => assert_eq!((p.path_option.as_deref(), p.width, p.height), (Some("photos/1.jpg"), 0, 0)),
        _ => panic!(),
    }
    match cs[1].sealed_value_optional.as_ref().unwrap() {
        ContentValue::Video { path_option, mime_type, thumbnail_path_option, .. } => {
            assert_eq!(path_option.as_deref(), Some("videos/2.mp4"));
            assert_eq!(mime_type, "video/mp4");
            assert_eq!(thumbnail_path_option.as_deref(), Some("thumbs/2.jpg"));
        },
        _ => panic!(),
    }
    match cs[2].sealed_value_optional.as_ref().unwrap() {
        ContentValue::VoiceMsg { path_option, mime_type, .. } => {
            assert_eq!(path_option.as_deref(), Some("audio/3.mp4"));
            assert_eq!(mime_type, "audio/mp4");
        },
        _ => panic!(),
    }

    let r = instagram_message(&msg(Some("Ann sent a live location.")), 1).unwrap();
    assert!(r.text.is_empty());
    match contents(&r)[0].sealed_value_optional.as_ref().unwrap() {
        ContentValue::Location { lat_str, lon_str, .. } => assert_eq!((lat_str.as_str(), lon_str.as_str()), ("", "")),
        _ => panic!(),
    }

    let mut m = msg(None);
    m.share = Some(InstagramShare { link: "https://x".to_owned(), share_text: "Look".to_owned() });
    assert_eq!(texts(&instagram_message(&m, 1).unwrap()), vec!["<Look|https://x>".to_owned()]);
}

#[test]
fn reactions_follow_the_text() {
    let mut m = msg(Some("Hello"));
    m.reactions = vec![
        InstagramReaction { reaction: "\u{e2}\u{9d}\u{a4}".to_owned(), actor: "Bob".to_owned() },
        InstagramReaction { reaction: "x".to_owned(), actor: "Cy".to_owned() },
    ];
    let r = instagram_message(&m, 1).unwrap();
    let all: String = texts(&r).concat();
    assert_eq!(all, "Hello\n[❤ Bob, x Cy]");
}
