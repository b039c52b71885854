//! What the media attached to a Telegram message becomes: a photo, a video or voice message, a
//! video, an audio track, a generic file, a sticker, a shared contact, a poll or a location.
use vstd::prelude::*;
use crate::model::{Content, ContentValue, ContentPhoto};
use crate::tg_keeper::{LoaderConfig, TgPhoto, tg_photo_resolution};
use crate::loaders::{normalize_phone_number, normalized_phone};
use crate::text::opt_chars;

verus! {

/// Kind of a document attribute, as far as telling audio from animations goes.
#[derive(Clone, Copy, Debug, PartialEq, Eq, Structural)]
pub enum DocumentAttributeKind {
    Audio,
    Animated,
    Other,
}

/// What the loader reads of a document (a file attached to a message).
#[derive(Debug)]
pub struct TgDocument {
    pub mime_type: Option<String>,
    /// File name; empty when there is none.
    pub name: String,
    pub resolution: Option<(i32, i32)>,
    /// Duration in whole seconds, if the document has one.
    pub duration_sec: Option<i32>,
    pub performer: Option<String>,
    pub audio_title: Option<String>,
    pub attributes: Vec<DocumentAttributeKind>,
}

/// A downloaded media file: its path relative to the dataset root, and its size.
#[derive(Debug)]
pub struct MediaFile {
    pub rel_path: String,
    pub size_bytes: u64,
}

/// Media attached to a Telegram message. Coordinates are decimal strings.
#[derive(Debug)]
pub enum TgMedia {
    Photo { photo: Option<TgPhoto>, has_ttl: bool },
    Document { document: TgDocument, has_ttl: bool, round: bool, video: bool, voice: bool },
    Sticker { document: TgDocument, emoji: String },
    Contact { first_name: String, last_name: String, phone_number: String },
    Poll { question: String },
    GeoLive { coordinates: Option<(String, String)>, period: i32 },
    Geo { latitude: String, longitude: String },
    Venue { coordinates: Option<(String, String)>, title: String, address: String },
    WebPage,
    Dice,
    /// Media of no kind the client library recognizes.
    Unrecognized,
    /// Media of a kind this loader does not handle (invoices, games, stories and such).
    Unsupported,
}

/// Why attached media could not be turned into content.
#[derive(Clone, Copy, Debug, PartialEq, Eq, Structural)]
pub enum MediaError {
    /// A video, voice message or audio track has no MIME type.
    MissingMimeType,
    LiveLocationWithoutCoordinates,
    VenueWithoutCoordinates,
    Unsupported,
}

/// What a document is shown as.
#[derive(Clone, Copy, Debug, PartialEq, Eq, Structural)]
pub enum DocumentKind {
    VideoMsg,
    Video,
    VoiceMsg,
    Audio,
    File,
}

/// The first attribute that marks a document as audio or as an animation; `Other` if none does.
pub open spec fn first_marked(attrs: Seq<DocumentAttributeKind>) -> DocumentAttributeKind
    decreases attrs.len(),
{
    if attrs.len() == 0 {
        DocumentAttributeKind::Other
    } else if attrs[0] != DocumentAttributeKind::Other {
        attrs[0]
    } else {
        first_marked(attrs.skip(1))
    }
}

/// What a document is shown as: a round video is a video message; then animations and videos
/// are videos, voice notes are voice messages, audio tracks are audio, and the rest are files.
pub open spec fn document_kind(d: TgDocument, round: bool, video: bool, voice: bool) -> DocumentKind {
    let marked = first_marked(d.attributes@);
    if round {
        DocumentKind::VideoMsg
    } else if marked == DocumentAttributeKind::Animated || video {
        DocumentKind::Video
    } else if voice {
        DocumentKind::VoiceMsg
    } else if marked == DocumentAttributeKind::Audio {
        DocumentKind::Audio
    } else {
        DocumentKind::File
    }
}

/// A string, or nothing where it is empty.
pub open spec fn nonempty(s: Seq<char>) -> Option<Seq<char>> {
    if s.len() == 0 {
        None
    } else {
        Some(s)
    }
}

/// A resolution, or zeros where it is unknown.
pub open spec fn resolution_or_zero(r: Option<(i32, i32)>) -> (i32, i32) {
    match r {
        Some(wh) => wh,
        None => (0, 0),
    }
}

/// A duration, where it is positive.
pub open spec fn positive_duration(d: Option<i32>) -> Option<i32> {
    match d {
        Some(v) => if v > 0 {
            Some(v)
        } else {
            None
        },
        None => None,
    }
}

/// Path of the media file, if there is one.
pub open spec fn media_path(f: Option<MediaFile>) -> Option<String> {
    match f {
        Some(mf) => Some(mf.rel_path),
        None => None,
    }
}

/// Path of the media file, if there is one and it is not larger than `max` bytes.
pub open spec fn sized_path(f: Option<MediaFile>, max: usize) -> Option<String> {
    match f {
        Some(mf) => if mf.size_bytes > max {
            None
        } else {
            Some(mf.rel_path)
        },
        None => None,
    }
}

/// Media that is left out without an error: web page previews, dice and unrecognized media.
pub open spec fn media_skipped(m: TgMedia) -> bool {
    m is WebPage || m is Dice || m is Unrecognized
}

/// The error that media gives, if any.
pub open spec fn media_error(m: TgMedia) -> Option<MediaError> {
    match m {
        TgMedia::Document { document, round, video, voice, .. } => {
            let kind = document_kind(document, round, video, voice);
            if (kind == DocumentKind::Video || kind == DocumentKind::VoiceMsg || kind == DocumentKind::Audio)
                && document.mime_type is None {
                Some(MediaError::MissingMimeType)
            } else {
                None
            }
        },
        TgMedia::GeoLive { coordinates: None, .. } => Some(MediaError::LiveLocationWithoutCoordinates),
        TgMedia::Venue { coordinates: None, .. } => Some(MediaError::VenueWithoutCoordinates),
        TgMedia::Unsupported => Some(MediaError::Unsupported),
        _ => None,
    }
}

/// Content made of a document of the given kind.
pub open spec fn document_content(
    d: TgDocument,
    kind: DocumentKind,
    has_ttl: bool,
    config: LoaderConfig,
    file: Option<MediaFile>,
    thumb: Option<String>,
    c: ContentValue,
) -> bool {
    let (w, h) = resolution_or_zero(d.resolution);
    let name = nonempty(d.name@);
    match kind {
        DocumentKind::VideoMsg => c matches ContentValue::VideoMsg {
            path_option, file_name_option, width, height, mime_type, duration_sec_option,
            thumbnail_path_option, is_one_time,
        } && {
            &&& path_option == media_path(file)
            &&& opt_chars(file_name_option) == name
            &&& width == w && height == h
            &&& mime_type@ == (match d.mime_type {
                Some(s) => s@,
                None => Seq::<char>::empty(),
            })
            &&& duration_sec_option == positive_duration(d.duration_sec)
            &&& thumbnail_path_option == thumb
            &&& is_one_time == has_ttl
        },
        DocumentKind::Video => c matches ContentValue::Video {
            path_option, file_name_option, title_option, performer_option, width, height, mime_type,
            duration_sec_option, thumbnail_path_option, is_one_time,
        } && {
            &&& path_option == sized_path(file, config.max_file_video_size_bytes)
            &&& opt_chars(file_name_option) == name
            &&& title_option is None
            &&& performer_option == d.performer
            &&& width == w && height == h
            &&& Some(mime_type) == d.mime_type
            &&& duration_sec_option == positive_duration(d.duration_sec)
            &&& thumbnail_path_option == thumb
            &&& is_one_time == has_ttl
        },
        DocumentKind::VoiceMsg => c matches ContentValue::VoiceMsg {
            path_option, file_name_option, mime_type, duration_sec_option,
        } && {
            &&& path_option == media_path(file)
            &&& opt_chars(file_name_option) == name
            &&& Some(mime_type) == d.mime_type
            &&& duration_sec_option == positive_duration(d.duration_sec)
        },
        DocumentKind::Audio => c matches ContentValue::Audio {
            path_option, file_name_option, title_option, performer_option, mime_type,
            duration_sec_option, thumbnail_path_option,
        } && {
            &&& path_option == media_path(file)
            &&& opt_chars(file_name_option) == name
            &&& title_option == d.audio_title
            &&& performer_option == d.performer
            &&& Some(mime_type) == d.mime_type
            &&& duration_sec_option == d.duration_sec
            &&& thumbnail_path_option == thumb
        },
        DocumentKind::File => c matches ContentValue::File {
            path_option, file_name_option, mime_type_option, thumbnail_path_option,
        } && {
            &&& path_option == (if config.load_generic_files {
                sized_path(file, config.max_file_video_size_bytes)
            } else {
                None
            })
            &&& opt_chars(file_name_option) == name
            &&& mime_type_option == d.mime_type
            &&& thumbnail_path_option == thumb
        },
    }
}

/// A document becomes a content of the kind it is shown as: a video message, a video, a voice
/// message, an audio track or a file, each its own kind.
pub proof fn law_document_content_kind(
    d: TgDocument,
    kind: DocumentKind,
    has_ttl: bool,
    config: LoaderConfig,
    file: Option<MediaFile>,
    thumb: Option<String>,
    c: ContentValue,
)
    requires
        document_content(d, kind, has_ttl, config, file, thumb, c),
    ensures
        (kind is VideoMsg) <==> (c is VideoMsg),
        (kind is Video) <==> (c is Video),
        (kind is VoiceMsg) <==> (c is VoiceMsg),
        (kind is Audio) <==> (c is Audio),
        (kind is File) <==> (c is File),
{
}

/// A location with the given coordinates.
pub open spec fn location_content(
    c: ContentValue,
    lat: String,
    lon: String,
    title: Option<Seq<char>>,
    address: Option<Seq<char>>,
    duration: Option<i32>,
) -> bool {
    c matches ContentValue::Location { title_option, address_option, lat_str, lon_str, duration_sec_option } && {
        &&& opt_chars(title_option) == title
        &&& opt_chars(address_option) == address
        &&& lat_str == lat
        &&& lon_str == lon
        &&& duration_sec_option == duration
    }
}

/// The content that media becomes, where it is neither skipped nor in error.
pub open spec fn media_content(
    m: TgMedia,
    config: LoaderConfig,
    file: Option<MediaFile>,
    thumb: Option<String>,
    c: ContentValue,
) -> bool {
    match m {
        TgMedia::Photo { photo, has_ttl } => {
            let (w, h) = resolution_or_zero(match photo {
                Some(p) => tg_photo_resolution(p),
                None => None,
            });
            c matches ContentValue::Photo(p) && {
                &&& p.path_option == media_path(file)
                &&& p.width == w && p.height == h
                &&& p.mime_type_option is None
                &&& p.is_one_time == has_ttl
            }
        },
        TgMedia::Document { document, has_ttl, round, video, voice } =>
            document_content(document, document_kind(document, round, video, voice), has_ttl, config, file, thumb, c),
        TgMedia::Sticker { document, emoji } => {
            let (w, h) = resolution_or_zero(document.resolution);
            c matches ContentValue::Sticker {
                path_option, file_name_option, width, height, mime_type_option, thumbnail_path_option, emoji_option,
            } && {
                &&& path_option == media_path(file)
                &&& opt_chars(file_name_option) == nonempty(document.name@)
                &&& width == w && height == h
                &&& mime_type_option == document.mime_type
                &&& thumbnail_path_option == thumb
                &&& opt_chars(emoji_option) == nonempty(emoji@)
            }
        },
        TgMedia::Contact { first_name, last_name, phone_number } => c matches ContentValue::SharedContact {
            first_name_option, last_name_option, phone_number_option, vcard_path_option,
        } && {
            &&& first_name_option == Some(first_name)
            &&& opt_chars(last_name_option) == nonempty(last_name@)
            &&& opt_chars(phone_number_option) == Some(normalized_phone(phone_number@))
            &&& vcard_path_option == media_path(file)
        },
        TgMedia::Poll { question } => c == ContentValue::Poll { question },
        TgMedia::GeoLive { coordinates: Some((lat, lon)), period } =>
            location_content(c, lat, lon, None, None, Some(period)),
        TgMedia::Geo { latitude, longitude } => location_content(c, latitude, longitude, None, None, None),
        TgMedia::Venue { coordinates: Some((lat, lon)), title, address } =>
            location_content(c, lat, lon, nonempty(title@), nonempty(address@), None),
        _ => false,
    }
}

/// Whether `r` is content made of `m` as [`media_content`] says.
pub open spec fn made_of(
    r: Result<Option<Content>, MediaError>,
    m: TgMedia,
    config: LoaderConfig,
    file: Option<MediaFile>,
    thumb: Option<String>,
) -> bool {
    r matches Ok(Some(content)) && content.sealed_value_optional matches Some(c)
        && media_content(m, config, file, thumb, c)
}

/// The first attribute that marks a document as audio or as an animation.
pub fn first_marked_attribute(attrs: &Vec<DocumentAttributeKind>) -> (r: DocumentAttributeKind)
    ensures
        r == first_marked(attrs@),
{
    let n = attrs.len();
    let mut i: usize = 0;
    assert(attrs@.skip(0) =~= attrs@);
    while i < n
        invariant
            n == attrs@.len(),
            i <= n,
            first_marked(attrs@) == first_marked(attrs@.skip(i as int)),
        decreases n - i,
    {
        let a = attrs[i];
        assert(attrs@.skip(i as int)[0] == a);
        if a != DocumentAttributeKind::Other {
            return a;
        }
        assert(attrs@.skip(i as int).skip(1) =~= attrs@.skip(i + 1));
        i = i + 1;
    }
    assert(attrs@.skip(n as int).len() == 0);
    DocumentAttributeKind::Other
}

/// A string, or nothing where it is empty.
fn nonempty_string(s: String) -> (r: Option<String>)
    ensures
        opt_chars(r) == nonempty(s@),
{
    if s.unicode_len() == 0 {
        None
    } else {
        Some(s)
    }
}

fn resolution_or_zeros(r: Option<(i32, i32)>) -> (wh: (i32, i32))
    ensures
        wh == resolution_or_zero(r),
{
    match r {
        Some(wh) => wh,
        None => (0, 0),
    }
}

fn positive_duration_of(d: Option<i32>) -> (r: Option<i32>)
    ensures
        r == positive_duration(d),
{
    match d {
        Some(v) => if v > 0 {
            Some(v)
        } else {
            None
        },
        None => None,
    }
}

fn media_path_of(f: Option<MediaFile>) -> (r: Option<String>)
    ensures
        r == media_path(f),
{
    match f {
        Some(mf) => Some(mf.rel_path),
        None => None,
    }
}

fn sized_path_of(f: Option<MediaFile>, max: usize) -> (r: Option<String>)
    ensures
        r == sized_path(f, max),
{
    match f {
        Some(mf) => if mf.size_bytes > max as u64 {
            None
        } else {
            Some(mf.rel_path)
        },
        None => None,
    }
}

fn wrap(v: ContentValue) -> (r: Result<Option<Content>, MediaError>)
    ensures
        r matches Ok(Some(content)) && content.sealed_value_optional == Some(v),
{
    Ok(Some(Content { sealed_value_optional: Some(v) }))
}

/// Content made of a document: see [`document_kind`] for what it is shown as. Videos, voice
/// messages and audio tracks must have a MIME type; videos and generic files keep their path
/// only while the file is not larger than the configured limit, and generic files only where
/// the configuration loads them.
fn parse_document(
    config: &LoaderConfig,
    d: TgDocument,
    has_ttl: bool,
    round: bool,
    video: bool,
    voice: bool,
    file: Option<MediaFile>,
    thumb: Option<String>,
) -> (r: Result<Option<Content>, MediaError>)
    ensures
        ({
            let m = TgMedia::Document { document: d, has_ttl, round, video, voice };
            &&& media_error(m) matches Some(e) ==> r == Err::<Option<Content>, MediaError>(e)
            &&& media_error(m) is None ==> made_of(r, m, *config, file, thumb)
        }),
{
    let ghost d0 = d;
    let ghost f0 = file;
    let marked = first_marked_attribute(&d.attributes);
    let (width, height) = resolution_or_zeros(d.resolution);
    let file_name_option = nonempty_string(d.name);
    let duration = positive_duration_of(d.duration_sec);
    if round {
        let mime_type = match d.mime_type {
            Some(s) => s,
            None => String::new(),
        };
        wrap(ContentValue::VideoMsg {
            path_option: media_path_of(file),
            file_name_option,
            width,
            height,
            mime_type,
            duration_sec_option: duration,
            thumbnail_path_option: thumb,
            is_one_time: has_ttl,
        })
    } else if marked == DocumentAttributeKind::Animated || video {
        let path_option = sized_path_of(file, config.max_file_video_size_bytes);
        match d.mime_type {
            None => Err(MediaError::MissingMimeType),
            Some(mime_type) => wrap(ContentValue::Video {
                path_option,
                file_name_option,
                title_option: None,
                performer_option: d.performer,
                width,
                height,
                mime_type,
                duration_sec_option: duration,
                thumbnail_path_option: thumb,
                is_one_time: has_ttl,
            }),
        }
    } else if voice {
        match d.mime_type {
            None => Err(MediaError::MissingMimeType),
            Some(mime_type) => wrap(ContentValue::VoiceMsg {
                path_option: media_path_of(file),
                file_name_option,
                mime_type,
                duration_sec_option: duration,
            }),
        }
    } else if marked == DocumentAttributeKind::Audio {
        match d.mime_type {
            None => Err(MediaError::MissingMimeType),
            Some(mime_type) => wrap(ContentValue::Audio {
                path_option: media_path_of(file),
                file_name_option,
                title_option: d.audio_title,
                performer_option: d.performer,
                mime_type,
                duration_sec_option: d.duration_sec,
                thumbnail_path_option: thumb,
            }),
        }
    } else {
        let path_option = if !config.load_generic_files {
            None
        } else {
            sized_path_of(file, config.max_file_video_size_bytes)
        };
        wrap(ContentValue::File {
            path_option,
            file_name_option,
            mime_type_option: d.mime_type,
            thumbnail_path_option: thumb,
        })
    }
}

/// What media attached to a message becomes. Web page previews, dice and unrecognized media
/// give nothing; media of a kind not handled, a live location or a venue without coordinates,
/// and a video, voice message or audio track without a MIME type are errors; everything else
/// becomes content as [`media_content`] says. `file` is the downloaded media file, if any, and
/// `thumb` the path of its thumbnail.
pub fn parse_media(
    config: &LoaderConfig,
    m: TgMedia,
    file: Option<MediaFile>,
    thumb: Option<String>,
) -> (r: Result<Option<Content>, MediaError>)
    ensures
        media_skipped(m) ==> r matches Ok(None),
        media_error(m) matches Some(e) ==> r == Err::<Option<Content>, MediaError>(e),
        !media_skipped(m) && media_error(m) is None ==> made_of(r, m, *config, file, thumb),
{
    match m {
        TgMedia::Photo { photo, has_ttl } => {
            let res = match &photo {
                Some(p) => p.resolution(),
                None => None,
            };
            let (width, height) = resolution_or_zeros(res);
            wrap(ContentValue::Photo(ContentPhoto {
                path_option: media_path_of(file),
                width,
                height,
                mime_type_option: None,
                is_one_time: has_ttl,
            }))
        },
        TgMedia::Document { document, has_ttl, round, video, voice } =>
            parse_document(config, document, has_ttl, round, video, voice, file, thumb),
        TgMedia::Sticker { document, emoji } => {
            let (width, height) = resolution_or_zeros(document.resolution);
            wrap(ContentValue::Sticker {
                path_option: media_path_of(file),
                file_name_option: nonempty_string(document.name),
                width,
                height,
                mime_type_option: document.mime_type,
                thumbnail_path_option: thumb,
                emoji_option: nonempty_string(emoji),
            })
        },
        TgMedia::Contact { first_name, last_name, phone_number } => {
            let phone = normalize_phone_number(phone_number.as_str());
            wrap(ContentValue::SharedContact {
                first_name_option: Some(first_name),
                last_name_option: nonempty_string(last_name),
                phone_number_option: Some(phone),
                vcard_path_option: media_path_of(file),
            })
        },
        TgMedia::Poll { question } => wrap(ContentValue::Poll { question }),
        TgMedia::GeoLive { coordinates, period } => match coordinates {
            None => Err(MediaError::LiveLocationWithoutCoordinates),
            Some((lat_str, lon_str)) => wrap(ContentValue::Location {
                title_option: None,
                address_option: None,
                lat_str,
                lon_str,
                duration_sec_option: Some(period),
            }),
        },
        TgMedia::Geo { latitude, longitude } => wrap(ContentValue::Location {
            title_option: None,
            address_option: None,
            lat_str: latitude,
            lon_str: longitude,
            duration_sec_option: None,
        }),
        TgMedia::Venue { coordinates, title, address } => match coordinates {
            None => Err(MediaError::VenueWithoutCoordinates),
            Some((lat_str, lon_str)) => wrap(ContentValue::Location {
                title_option: nonempty_string(title),
                address_option: nonempty_string(address),
                lat_str,
                lon_str,
                duration_sec_option: None,
            }),
        },
        TgMedia::WebPage | TgMedia::Dice | TgMedia::Unrecognized => Ok(None),
        TgMedia::Unsupported => Err(MediaError::Unsupported),
    }
}

} // verus!
