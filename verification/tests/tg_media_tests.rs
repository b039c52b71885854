use chat_history_manager::model::{Content, ContentValue};
use chat_history_manager::tg_keeper::{LoaderConfig, PhotoSize, TgPhoto};
use chat_history_manager::tg_media::{
    first_marked_attribute, parse_media, DocumentAttributeKind, MediaError, MediaFile, TgDocument, TgMedia,
};

fn config(load_generic_files: bool) -> LoaderConfig {
    LoaderConfig { load_generic_files, max_file_video_size_bytes: 1000 }
}

fn file(size_bytes: u64) -> Option<MediaFile> {
    Some(MediaFile { rel_path: "media/file.bin".to_owned(), size_bytes })
}

fn doc(mime: Option<&str>, attributes: Vec<DocumentAttributeKind>) -> TgDocument {
    TgDocument {
        mime_type: mime.map(|s| s.to_owned()),
        name: "clip.mp4".to_owned(),
        resolution: Some((640, 480)),
        duration_sec: Some(12),
        performer: Some("Band".to_owned()),
        audio_title: Some("Song".to_owned()),
        attributes,
    }
}

fn document(d: TgDocument, round: bool, video: bool, voice: bool) -> TgMedia {
    TgMedia::Document { document: d, has_ttl: false, round, video, voice }
}

fn value(r: Result<Option<Content>, MediaError>) -> ContentValue {
    r.unwrap().unwrap().sealed_value_optional.unwrap()
}

#[test]
fn photo_takes_widest_size_and_ttl() {
    let photo = TgPhoto::Photo {
        sizes: vec![PhotoSize::Size { w: 90, h: 60 }, PhotoSize::Size { w: 1280, h: 853 }],
    };
    let v = value(parse_media(&config(true), TgMedia::Photo { photo: Some(photo), has_ttl: true }, file(5), None));
    match v {
        ContentValue::Photo(p) => {
            assert_eq!(p.path_option.as_deref(), Some("media/file.bin"));
            assert_eq!((p.width, p.height), (1280, 853));
            assert!(p.mime_type_option.is_none());
            assert!(p.is_one_time);
        }
        other => panic!("unexpected {other:?}"),
    }
}

#[test]
fn photo_without_sizes_has_zero_resolution() {
    let v = value(parse_media(&config(true), TgMedia::Photo { photo: None, has_ttl: false }, None, None));
    match v {
        ContentValue::Photo(p) => {
            assert_eq!((p.width, p.height, p.is_one_time), (0, 0, false));
            assert!(p.path_option.is_none());
        }
        other => panic!("unexpected {other:?}"),
    }
}

#[test]
fn round_video_is_a_video_message() {
    let v = value(parse_media(&config(true), document(doc(None, vec![]), true, true, false), file(5000),
        Some("thumb.jpg".to_owned())));
    match v {
        ContentValue::VideoMsg { path_option, file_name_option, width, height, mime_type, duration_sec_option,
            thumbnail_path_option, is_one_time } => {
            assert_eq!(path_option.as_deref(), Some("media/file.bin"));
            assert_eq!(file_name_option.as_deref(), Some("clip.mp4"));
            assert_eq!((width, height), (640, 480));
            assert_eq!(mime_type, "");
            assert_eq!(duration_sec_option, Some(12));
            assert_eq!(thumbnail_path_option.as_deref(), Some("thumb.jpg"));
            assert!(!is_one_time);
        }
        other => panic!("unexpected {other:?}"),
    }
}

#[test]
fn large_video_loses_its_path() {
    let v = value(parse_media(&config(true), document(doc(Some("video/mp4"), vec![]), false, true, false),
        file(1001), None));
    match v {
        ContentValue::Video { path_option, mime_type, performer_option, title_option, .. } => {
            assert!(path_option.is_none());
            assert_eq!(mime_type, "video/mp4");
            assert_eq!(performer_option.as_deref(), Some("Band"));
            assert!(title_option.is_none());
        }
        other => panic!("unexpected {other:?}"),
    }
    let v = value(parse_media(&config(true), document(doc(Some("video/mp4"), vec![]), false, true, false),
        file(1000), None));
    match v {
        ContentValue::Video { path_option, .. } => assert_eq!(path_option.as_deref(), Some("media/file.bin")),
        other => panic!("unexpected {other:?}"),
    }
}

#[test]
fn animation_is_a_video_and_first_marking_attribute_wins() {
    let attrs = vec![DocumentAttributeKind::Other, DocumentAttributeKind::Animated, DocumentAttributeKind::Audio];
    assert_eq!(first_marked_attribute(&attrs), DocumentAttributeKind::Animated);
    let v = value(parse_media(&config(true), document(doc(Some("video/mp4"), attrs), false, false, false),
        file(1), None));
    assert!(matches!(v, ContentValue::Video { .. }));
}

#[test]
fn voice_and_audio() {
    let v = value(parse_media(&config(true), document(doc(Some("audio/ogg"), vec![]), false, false, true),
        file(1), None));
    match v {
        ContentValue::VoiceMsg { mime_type, duration_sec_option, .. } => {
            assert_eq!(mime_type, "audio/ogg");
            assert_eq!(duration_sec_option, Some(12));
        }
        other => panic!("unexpected {other:?}"),
    }
    let mut d = doc(Some("audio/mpeg"), vec![DocumentAttributeKind::Audio, DocumentAttributeKind::Animated]);
    d.duration_sec = Some(0);
    let v = value(parse_media(&config(true), document(d, false, false, false), file(1), None));
    match v {
        ContentValue::Audio { title_option, performer_option, mime_type, duration_sec_option, .. } => {
            assert_eq!(title_option.as_deref(), Some("Song"));
            assert_eq!(performer_option.as_deref(), Some("Band"));
            assert_eq!(mime_type, "audio/mpeg");
            // Audio keeps the duration as is, zero included.
            assert_eq!(duration_sec_option, Some(0));
        }
        other => panic!("unexpected {other:?}"),
    }
}

#[test]
fn media_without_mime_type_is_an_error() {
    let r = parse_media(&config(true), document(doc(None, vec![]), false, true, false), file(1), None);
    assert_eq!(r.unwrap_err(), MediaError::MissingMimeType);
    let r = parse_media(&config(true), document(doc(None, vec![]), false, false, true), file(1), None);
    assert_eq!(r.unwrap_err(), MediaError::MissingMimeType);
    let r = parse_media(&config(true), document(doc(None, vec![DocumentAttributeKind::Audio]), false, false, false),
        file(1), None);
    assert_eq!(r.unwrap_err(), MediaError::MissingMimeType);
}

#[test]
fn generic_files_follow_the_configuration() {
    let mut d = doc(None, vec![]);
    d.name = String::new();
    let v = value(parse_media(&config(false), document(d, false, false, false), file(1), None));
    match v {
        ContentValue::File { path_option, file_name_option, mime_type_option, .. } => {
            assert!(path_option.is_none());
            assert!(file_name_option.is_none());
            assert!(mime_type_option.is_none());
        }
        other => panic!("unexpected {other:?}"),
    }
    let v = value(parse_media(&config(true), document(doc(Some("application/pdf"), vec![]), false, false, false),
        file(1), None));
    match v {
        ContentValue::File { path_option, mime_type_option, .. } => {
            assert_eq!(path_option.as_deref(), Some("media/file.bin"));
            assert_eq!(mime_type_option.as_deref(), Some("application/pdf"));
        }
        other => panic!("unexpected {other:?}"),
    }
}

#[test]
fn sticker_contact_and_poll() {
    let mut d = doc(Some("image/webp"), vec![]);
    d.name = String::new();
    let v = value(parse_media(&config(true), TgMedia::Sticker { document: d, emoji: "😀".to_owned() }, file(1), None));
    match v {
        ContentValue::Sticker { file_name_option, emoji_option, width, mime_type_option, .. } => {
            assert!(file_name_option.is_none());
            assert_eq!(emoji_option.as_deref(), Some("😀"));
            assert_eq!(width, 640);
            assert_eq!(mime_type_option.as_deref(), Some("image/webp"));
        }
        other => panic!("unexpected {other:?}"),
    }
    let contact = TgMedia::Contact {
        first_name: "Ann".to_owned(),
        last_name: String::new(),
        phone_number: "00 1 (23) 45".to_owned(),
    };
    let v = value(parse_media(&config(true), contact, None, None));
    match v {
        ContentValue::SharedContact { first_name_option, last_name_option, phone_number_option, vcard_path_option } => {
            assert_eq!(first_name_option.as_deref(), Some("Ann"));
            assert!(last_name_option.is_none());
            assert_eq!(phone_number_option.as_deref(), Some("+12345"));
            assert!(vcard_path_option.is_none());
        }
        other => panic!("unexpected {other:?}"),
    }
    let v = value(parse_media(&config(true), TgMedia::Poll { question: "Why?".to_owned() }, None, None));
    assert!(matches!(v, ContentValue::Poll { question } if question == "Why?"));
}

#[test]
fn locations() {
    let live = TgMedia::GeoLive { coordinates: Some(("1.5".to_owned(), "-2.25".to_owned())), period: 900 };
    match value(parse_media(&config(true), live, None, None)) {
        ContentValue::Location { title_option, lat_str, lon_str, duration_sec_option, .. } => {
            assert!(title_option.is_none());
            assert_eq!((lat_str.as_str(), lon_str.as_str()), ("1.5", "-2.25"));
            assert_eq!(duration_sec_option, Some(900));
        }
        other => panic!("unexpected {other:?}"),
    }
    let venue = TgMedia::Venue {
        coordinates: Some(("3".to_owned(), "4".to_owned())),
        title: "Cafe".to_owned(),
        address: String::new(),
    };
    match value(parse_media(&config(true), venue, None, None)) {
        ContentValue::Location { title_option, address_option, duration_sec_option, .. } => {
            assert_eq!(title_option.as_deref(), Some("Cafe"));
            assert!(address_option.is_none());
            assert!(duration_sec_option.is_none());
        }
        other => panic!("unexpected {other:?}"),
    }
    let geo = TgMedia::Geo { latitude: "5".to_owned(), longitude: "6".to_owned() };
    assert!(matches!(value(parse_media(&config(true), geo, None, None)), ContentValue::Location { .. }));
    let r = parse_media(&config(true), TgMedia::GeoLive { coordinates: None, period: 1 }, None, None);
    assert_eq!(r.unwrap_err(), MediaError::LiveLocationWithoutCoordinates);
    let r = parse_media(&config(true),
        TgMedia::Venue { coordinates: None, title: String::new(), address: String::new() }, None, None);
    assert_eq!(r.unwrap_err(), MediaError::VenueWithoutCoordinates);
}

#[test]
fn skipped_and_unsupported_media() {
    assert!(parse_media(&config(true), TgMedia::WebPage, None, None).unwrap().is_none());
    assert!(parse_media(&config(true), TgMedia::Dice, None, None).unwrap().is_none());
    assert!(parse_media(&config(true), TgMedia::Unrecognized, None, None).unwrap().is_none());
    assert_eq!(parse_media(&config(true), TgMedia::Unsupported, None, None).unwrap_err(), MediaError::Unsupported);
}
