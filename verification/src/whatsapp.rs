//! Regular messages of a WhatsApp Android database: what each message type becomes, given the
//! columns read for the message.
use vstd::prelude::*;
use vstd::utf8::{encode_utf8, is_char_boundary};
use crate::model::{Content, ContentValue, ContentPhoto, MessageRegular, MessageTyped};
use crate::text::{SOMEONE, opt_chars, str_eq};
use crate::entity_utils::{EnumResolve, UnknownCode};

verus! {

/// Type of a WhatsApp message, as the database numbers it.
#[derive(Clone, Copy, Debug, PartialEq, Eq, Structural)]
pub enum MessageType {
    Text,
    Picture,
    Audio,
    Video,
    ContactVcard,
    StaticLocation,
    /// Stands for a large group of actions, told apart by their action type.
    System,
    Document,
    MissedCall,
    WaitingForMessage,
    AnimatedGif,
    /// The key of the original message is kept with the revocation.
    Deleted,
    LiveLocation,
    AnimatedSticker,
    BusinessItem,
    BusinessItemTemplated,
    OneTimePassword,
    WhatsAppMessage,
    DisappearTimerSet,
    OneTimePhoto,
    OneTimeVideo,
    VideoCall,
}

/// The message type a database code stands for.
pub open spec fn message_type_of(code: i32) -> Option<MessageType> {
    if code == 0 { Some(MessageType::Text) }
    else if code == 1 { Some(MessageType::Picture) }
    else if code == 2 { Some(MessageType::Audio) }
    else if code == 3 { Some(MessageType::Video) }
    else if code == 4 { Some(MessageType::ContactVcard) }
    else if code == 5 { Some(MessageType::StaticLocation) }
    else if code == 7 { Some(MessageType::System) }
    else if code == 9 { Some(MessageType::Document) }
    else if code == 10 { Some(MessageType::MissedCall) }
    else if code == 11 { Some(MessageType::WaitingForMessage) }
    else if code == 13 { Some(MessageType::AnimatedGif) }
    else if code == 15 { Some(MessageType::Deleted) }
    else if code == 16 { Some(MessageType::LiveLocation) }
    else if code == 20 { Some(MessageType::AnimatedSticker) }
    else if code == 23 { Some(MessageType::BusinessItem) }
    else if code == 25 { Some(MessageType::BusinessItemTemplated) }
    else if code == 27 { Some(MessageType::OneTimePassword) }
    else if code == 28 { Some(MessageType::WhatsAppMessage) }
    else if code == 36 { Some(MessageType::DisappearTimerSet) }
    else if code == 42 { Some(MessageType::OneTimePhoto) }
    else if code == 43 { Some(MessageType::OneTimeVideo) }
    else if code == 90 { Some(MessageType::VideoCall) }
    else { None }
}

/// The code a message type is stored under in the database (the `type` column).
pub open spec fn type_code(t: MessageType) -> i32 {
    match t {
        MessageType::Text => 0,
        MessageType::Picture => 1,
        MessageType::Audio => 2,
        MessageType::Video => 3,
        MessageType::ContactVcard => 4,
        MessageType::StaticLocation => 5,
        MessageType::System => 7,
        MessageType::Document => 9,
        MessageType::MissedCall => 10,
        MessageType::WaitingForMessage => 11,
        MessageType::AnimatedGif => 13,
        MessageType::Deleted => 15,
        MessageType::LiveLocation => 16,
        MessageType::AnimatedSticker => 20,
        MessageType::BusinessItem => 23,
        MessageType::BusinessItemTemplated => 25,
        MessageType::OneTimePassword => 27,
        MessageType::WhatsAppMessage => 28,
        MessageType::DisappearTimerSet => 36,
        MessageType::OneTimePhoto => 42,
        MessageType::OneTimeVideo => 43,
        MessageType::VideoCall => 90,
    }
}

/// A code is read as a message type exactly when it is the code that type is stored under:
/// every type is read back from its own code, and no code stands for two types.
pub proof fn law_message_type_codes(code: i32, t: MessageType)
    ensures
        message_type_of(code) == Some(t) <==> type_code(t) == code,
        message_type_of(type_code(t)) == Some(t),
{
}

impl EnumResolve for MessageType {
    open spec fn resolved(tpe: i32) -> Option<MessageType> {
        message_type_of(tpe)
    }

    fn resolve(tpe: i32) -> (r: Result<MessageType, UnknownCode>) {
        match MessageType::from_code(tpe) {
            Some(t) => Ok(t),
            None => Err(UnknownCode { code: tpe }),
        }
    }
}

impl MessageType {
    /// The message type a database code stands for, if any.
    pub fn from_code(code: i32) -> (r: Option<MessageType>)
        ensures
            r == message_type_of(code),
    {
        match code {
            0 => Some(MessageType::Text),
            1 => Some(MessageType::Picture),
            2 => Some(MessageType::Audio),
            3 => Some(MessageType::Video),
            4 => Some(MessageType::ContactVcard),
            5 => Some(MessageType::StaticLocation),
            7 => Some(MessageType::System),
            9 => Some(MessageType::Document),
            10 => Some(MessageType::MissedCall),
            11 => Some(MessageType::WaitingForMessage),
            13 => Some(MessageType::AnimatedGif),
            15 => Some(MessageType::Deleted),
            16 => Some(MessageType::LiveLocation),
            20 => Some(MessageType::AnimatedSticker),
            23 => Some(MessageType::BusinessItem),
            25 => Some(MessageType::BusinessItemTemplated),
            27 => Some(MessageType::OneTimePassword),
            28 => Some(MessageType::WhatsAppMessage),
            36 => Some(MessageType::DisappearTimerSet),
            42 => Some(MessageType::OneTimePhoto),
            43 => Some(MessageType::OneTimeVideo),
            90 => Some(MessageType::VideoCall),
            _ => None,
        }
    }
}

/// Column that holds the text of a message.
pub const TEXT_COLUMN: &'static str = "text_data";

/// Column that holds the text of a document message.
pub const CAPTION_COLUMN: &'static str = "media_caption";

/// A shared contact, as its vCard gives it.
#[derive(Debug)]
pub struct VcardContact {
    pub full_name: String,
    pub phone_number: String,
}

/// The columns read for a regular message.
#[derive(Debug)]
pub struct MessageRow {
    pub file_path: Option<String>,
    pub media_name: Option<String>,
    pub width: Option<i32>,
    pub height: Option<i32>,
    pub mime_type: Option<String>,
    pub media_duration: Option<i32>,
    /// The contact of a vCard message.
    pub vcard: Option<VcardContact>,
    pub latitude: Option<String>,
    pub longitude: Option<String>,
    pub place_name: Option<String>,
    pub place_address: Option<String>,
    pub live_location_share_duration: Option<i32>,
    pub forward_score: Option<i64>,
    pub parent_key_id: Option<String>,
    pub edited_timestamp: Option<i64>,
    pub revoke_timestamp: Option<i64>,
}

/// Why a regular message could not be read.
#[derive(Clone, Copy, Debug, PartialEq, Eq, Structural)]
pub enum RegularMessageError {
    /// A vCard message has no contact.
    MissingVcard,
    /// A location has no latitude or no longitude.
    MissingCoordinates,
}

/// A number that counts only where it is not zero.
pub open spec fn nonzero(o: Option<i32>) -> Option<i32> {
    match o {
        Some(0i32) => None,
        _ => o,
    }
}

/// A number that counts only where it is not zero.
pub fn zero_as_null(o: Option<i32>) -> (r: Option<i32>)
    ensures
        r == nonzero(o),
{
    match o {
        Some(0) => None,
        _ => o,
    }
}

/// A MIME type that counts only where it is not empty.
pub open spec fn mime_of(o: Option<String>) -> Option<Seq<char>> {
    match o {
        Some(s) => if s@.len() == 0 { None } else { Some(s@) },
        None => None,
    }
}

/// Last part of a path (everything after its last slash).
pub open spec fn last_path_part(p: Seq<char>) -> Seq<char>
    decreases p.len(),
{
    if p.len() == 0 {
        p
    } else if p.last() == '/' {
        Seq::empty()
    } else {
        last_path_part(p.drop_last()).push(p.last())
    }
}

/// The file name of a media: its own name, or else the last part of its path.
pub open spec fn media_file_name(name: Option<String>, path: Option<String>) -> Option<Seq<char>> {
    match name {
        Some(n) => Some(n@),
        None => match path {
            Some(p) => Some(last_path_part(p@)),
            None => None,
        },
    }
}

/// Position of the first `.` byte.
pub open spec fn first_dot(b: Seq<u8>) -> Option<int>
    decreases b.len(),
{
    if b.len() == 0 {
        None
    } else if b[0] == 0x2Eu8 {
        Some(0)
    } else {
        match first_dot(b.drop_first()) {
            Some(i) => Some(i + 1),
            None => None,
        }
    }
}

/// A coordinate's text (as UTF-8 bytes) cut to eight digits after the point.
pub open spec fn reduced_precision(b: Seq<u8>) -> Seq<u8> {
    match first_dot(b) {
        Some(i) => if b.len() - i > 8 { b.take(i + 9) } else { b },
        None => b,
    }
}

/// Whether cutting a coordinate's text to eight digits after the point cuts it between
/// characters (the cut is made on bytes).
pub open spec fn cut_at_char(s: Seq<char>) -> bool {
    let b = encode_utf8(s);
    match first_dot(b) {
        Some(i) => b.len() - i > 8 ==> is_char_boundary(b, i + 9),
        None => true,
    }
}

/// How far the larger side of a sticker is from 256, while it is positive and under it.
pub open spec fn doubling_measure(w: int, h: int) -> int {
    let p = if w > h { w } else { h };
    if 0 < p && p < 256 {
        256 - p
    } else {
        0
    }
}

/// Width and height of a sticker, doubled while both are under 256 (as long as one of them is
/// positive, which makes the doubling stop).
pub open spec fn enlarged(w: int, h: int) -> (int, int)
    decreases doubling_measure(w as int, h as int),
{
    if w < 256 && h < 256 && (w > 0 || h > 0) {
        enlarged(w * 2, h * 2)
    } else {
        (w, h)
    }
}

/// Whether doubling a sticker's size stops, and stays within 32-bit numbers on the way.
pub open spec fn enlargeable(w: int, h: int) -> bool {
    &&& (w > 0 || h > 0)
    &&& i32::MIN <= enlarged(w, h).0 <= i32::MAX
    &&& i32::MIN <= enlarged(w, h).1 <= i32::MAX
}

proof fn lemma_enlarged_grows(w: int, h: int)
    requires
        w > 0 || h > 0,
    ensures
        w >= 0 ==> enlarged(w, h).0 >= w,
        w < 0 ==> enlarged(w, h).0 <= w,
        h >= 0 ==> enlarged(w, h).1 >= h,
        h < 0 ==> enlarged(w, h).1 <= h,
    decreases doubling_measure(w as int, h as int),
{
    if w < 256 && h < 256 {
        lemma_enlarged_grows(w * 2, h * 2);
    }
}

/// A sticker's size doubled while both sides are under 256, see [`enlarged`].
fn enlarge(w: i32, h: i32) -> (r: (i32, i32))
    requires
        enlargeable(w as int, h as int),
    ensures
        (r.0 as int, r.1 as int) == enlarged(w as int, h as int),
{
    let ghost target = enlarged(w as int, h as int);
    let mut w = w;
    let mut h = h;
    while w < 256 && h < 256
        invariant
            w > 0 || h > 0,
            enlarged(w as int, h as int) == target,
            i32::MIN <= target.0 <= i32::MAX,
            i32::MIN <= target.1 <= i32::MAX,
        decreases doubling_measure(w as int, h as int),
    {
        proof {
            lemma_enlarged_grows(w * 2, h * 2);
        }
        w = w * 2;
        h = h * 2;
    }
    (w, h)
}

/// The last part of a path (everything after its last slash).
fn last_part(p: &str) -> (r: String)
    ensures
        r@ == last_path_part(p@),
{
    let n = p.unicode_len();
    let mut i: usize = n;
    while i > 0 && p.get_char(i - 1) != '/'
        invariant
            n == p@.len(),
            i <= n,
            forall|k: int| i <= k < n ==> p@[k] != '/',
        decreases i,
    {
        i = i - 1;
    }
    proof {
        lemma_last_path_part(p@, i as int);
    }
    p.substring_char(i, n).to_owned()
}

proof fn lemma_last_path_part(p: Seq<char>, i: int)
    requires
        0 <= i <= p.len(),
        forall|k: int| i <= k < p.len() ==> p[k] != '/',
        i == 0 || p[i - 1] == '/',
    ensures
        last_path_part(p) == p.subrange(i, p.len() as int),
    decreases p.len(),
{
    if p.len() > i {
        assert forall|k: int| i <= k < p.drop_last().len() implies p.drop_last()[k] != '/' by {
            assert(p.drop_last()[k] == p[k]);
        }
        if i > 0 {
            assert(p.drop_last()[i - 1] == p[i - 1]);
        }
        lemma_last_path_part(p.drop_last(), i);
        assert(p.subrange(i, p.len() as int) =~= p.drop_last().subrange(i, p.len() - 1).push(p.last()));
    } else {
        assert(p.subrange(i, p.len() as int) =~= Seq::<char>::empty());
    }
}

/// The media's file name: its own, or else the last part of its path.
fn file_name_of(name: &Option<String>, path: &Option<String>) -> (r: Option<String>)
    ensures
        match r {
            Some(s) => media_file_name(*name, *path) == Some(s@),
            None => media_file_name(*name, *path) is None,
        },
{
    match name {
        Some(n) => Some(n.clone()),
        None => match path {
            Some(p) => Some(last_part(p.as_str())),
            None => None,
        },
    }
}

proof fn lemma_first_dot(b: Seq<u8>, i: int)
    requires
        0 <= i <= b.len(),
        forall|k: int| 0 <= k < i ==> b[k] != 0x2Eu8,
    ensures
        i < b.len() && b[i] == 0x2Eu8 ==> first_dot(b) == Some(i),
        i == b.len() ==> first_dot(b) is None,
    decreases i,
{
    if i > 0 {
        assert forall|k: int| 0 <= k < i - 1 implies b.drop_first()[k] != 0x2Eu8 by {
            assert(b.drop_first()[k] == b[k + 1]);
        }
        if i < b.len() {
            assert(b.drop_first()[i - 1] == b[i]);
        }
        lemma_first_dot(b.drop_first(), i - 1);
    } else if b.len() > 0 {
    }
}

/// A coordinate's text cut to eight digits after the point, see [`reduced_precision`].
fn reduce_precision(s: String) -> (r: String)
    requires
        cut_at_char(s@),
    ensures
        encode_utf8(r@) == reduced_precision(encode_utf8(s@)),
{
    let ghost b = encode_utf8(s@);
    let bytes = s.as_str().as_bytes();
    let n = bytes.len();
    let mut i: usize = 0;
    while i < n && bytes[i] != 0x2E
        invariant
            bytes@ == b,
            n == b.len(),
            i <= n,
            forall|k: int| 0 <= k < i ==> b[k] != 0x2Eu8,
        decreases n - i,
    {
        i = i + 1;
    }
    proof {
        lemma_first_dot(b, i as int);
    }
    if i < n && n - i > 8 {
        let (head, _) = s.as_str().split_at(i + 9);
        proof {
            assert(b.take(i + 9) =~= b.subrange(0, i + 9));
        }
        head.to_owned()
    } else {
        s
    }
}

/// Truncating division of a timestamp in milliseconds into seconds.
pub open spec fn millis_to_secs(ts: i64) -> int {
    if ts >= 0 {
        ts / 1000
    } else {
        -((-ts) / 1000)
    }
}

/// The source ID of the message with the given key, if it is known: keys are recorded in
/// order, and a later record of a key replaces an earlier one.
pub open spec fn source_id_of(keys: Seq<(String, i64)>, key: Seq<char>) -> Option<i64>
    decreases keys.len(),
{
    if keys.len() == 0 {
        None
    } else if keys.last().0@ == key {
        Some(keys.last().1)
    } else {
        source_id_of(keys.drop_last(), key)
    }
}

/// The source ID of the message with the given key, see [`source_id_of`].
pub fn lookup_source_id(keys: &Vec<(String, i64)>, key: &str) -> (r: Option<i64>)
    ensures
        r == source_id_of(keys@, key@),
{
    let mut i: usize = keys.len();
    proof {
        assert(keys@.take(i as int) =~= keys@);
    }
    while i > 0
        invariant
            i <= keys@.len(),
            source_id_of(keys@, key@) == source_id_of(keys@.take(i as int), key@),
        decreases i,
    {
        proof {
            assert(keys@.take(i as int).drop_last() =~= keys@.take(i - 1));
            assert(keys@.take(i as int).last() == keys@[i - 1]);
        }
        if str_eq(keys[i - 1].0.as_str(), key) {
            return Some(keys[i - 1].1);
        }
        i = i - 1;
    }
    None
}

/// Whether `c` is a photo with the given fields.
pub open spec fn photo_of(c: Content, path: Option<String>, w: Option<i32>, h: Option<i32>, mime: Option<Seq<char>>, one_time: bool) -> bool {
    match c.sealed_value_optional {
        Some(ContentValue::Photo(ph)) => {
            &&& ph.path_option == path
            &&& Some(ph.width) == w
            &&& Some(ph.height) == h
            &&& opt_chars(ph.mime_type_option) == mime
            &&& ph.is_one_time == one_time
        },
        _ => false,
    }
}

/// Whether `c` is a video message with the given fields.
pub open spec fn video_msg_of(c: Content, row: MessageRow, path: Option<String>, name: Option<Seq<char>>, one_time: bool) -> bool {
    match c.sealed_value_optional {
        Some(ContentValue::VideoMsg { path_option, file_name_option, width, height, mime_type, duration_sec_option, thumbnail_path_option, is_one_time }) => {
            &&& path_option == path
            &&& opt_chars(file_name_option) == name
            &&& Some(width) == nonzero(row.width)
            &&& Some(height) == nonzero(row.height)
            &&& Some(mime_type@) == mime_of(row.mime_type)
            &&& duration_sec_option == nonzero(row.media_duration)
            &&& thumbnail_path_option is None
            &&& is_one_time == one_time
        },
        _ => false,
    }
}

/// Whether `c` is the location the row gives.
pub open spec fn location_of(c: Content, row: MessageRow) -> bool {
    match c.sealed_value_optional {
        Some(ContentValue::Location { title_option, address_option, lat_str, lon_str, duration_sec_option }) => {
            &&& title_option == row.place_name
            &&& address_option == row.place_address
            &&& row.latitude matches Some(lat) && encode_utf8(lat_str@) == reduced_precision(encode_utf8(lat@))
            &&& row.longitude matches Some(lon) && encode_utf8(lon_str@) == reduced_precision(encode_utf8(lon@))
            &&& duration_sec_option == row.live_location_share_duration
        },
        _ => false,
    }
}

/// Whether `cs` are the contents a message of the given type gets from its row.
pub open spec fn contents_of(tpe: MessageType, row: MessageRow, cs: Seq<Content>) -> bool {
    let path = row.file_path;
    let name = media_file_name(row.media_name, row.file_path);
    let mime = mime_of(row.mime_type);
    match tpe {
        MessageType::Text => cs.len() == 0,
        MessageType::Deleted => cs.len() == 0,
        MessageType::Picture => cs.len() == 1 && photo_of(cs[0], path, nonzero(row.width), nonzero(row.height), mime, false),
        MessageType::OneTimePhoto => cs.len() == 1 && photo_of(cs[0], None, nonzero(row.width), nonzero(row.height), mime, true),
        MessageType::Audio => cs.len() == 1 && match cs[0].sealed_value_optional {
            Some(ContentValue::VoiceMsg { path_option, file_name_option, mime_type, duration_sec_option }) => {
                &&& path_option == path
                &&& opt_chars(file_name_option) == name
                &&& Some(mime_type@) == mime
                &&& duration_sec_option == nonzero(row.media_duration)
            },
            _ => false,
        },
        MessageType::Video => cs.len() == 1 && video_msg_of(cs[0], row, path, name, false),
        MessageType::AnimatedGif => cs.len() == 1 && video_msg_of(cs[0], row, path, name, false),
        MessageType::OneTimeVideo => cs.len() == 1 && video_msg_of(cs[0], row, None, None, true),
        MessageType::Document => cs.len() == 1 && match cs[0].sealed_value_optional {
            Some(ContentValue::File { path_option, file_name_option, mime_type_option, thumbnail_path_option }) => {
                &&& path_option == path
                &&& opt_chars(file_name_option) == name
                &&& opt_chars(mime_type_option) == mime
                &&& thumbnail_path_option is None
            },
            _ => false,
        },
        MessageType::AnimatedSticker => cs.len() == 1 && match cs[0].sealed_value_optional {
            Some(ContentValue::Sticker { path_option, file_name_option, width, height, mime_type_option, thumbnail_path_option, emoji_option }) => {
                &&& path_option == path
                &&& opt_chars(file_name_option) == name
                &&& (width as int, height as int) == enlarged(row.width.unwrap() as int, row.height.unwrap() as int)
                &&& opt_chars(mime_type_option) == mime
                &&& thumbnail_path_option is None
                &&& emoji_option is None
            },
            _ => false,
        },
        MessageType::ContactVcard => cs.len() == 1 && match (cs[0].sealed_value_optional, row.vcard) {
            (Some(ContentValue::SharedContact { first_name_option, last_name_option, phone_number_option, vcard_path_option }), Some(v)) => {
                &&& opt_chars(first_name_option) == Some(v.full_name@)
                &&& last_name_option is None
                &&& opt_chars(phone_number_option) == Some(v.phone_number@)
                &&& vcard_path_option is None
            },
            _ => false,
        },
        MessageType::StaticLocation => cs.len() == 1 && location_of(cs[0], row),
        MessageType::LiveLocation => cs.len() == 1 && location_of(cs[0], row),
        _ => false,
    }
}

/// The column that holds a message's text, for each type: none for one-time photos, videos,
/// GIFs and vCards (whose text is the contact's name), the caption for documents.
pub open spec fn text_column_of(tpe: MessageType) -> Option<Seq<char>> {
    match tpe {
        MessageType::OneTimePhoto => None,
        MessageType::Video => None,
        MessageType::AnimatedGif => None,
        MessageType::ContactVcard => None,
        MessageType::Document => Some(CAPTION_COLUMN@),
        _ => Some(TEXT_COLUMN@),
    }
}

/// Whether a message type is one that is skipped.
pub open spec fn is_skipped_type(tpe: MessageType) -> bool {
    tpe is WaitingForMessage || tpe is BusinessItem || tpe is BusinessItemTemplated
        || tpe is OneTimePassword || tpe is WhatsAppMessage || tpe is DisappearTimerSet
}

/// Whether reading a message of this type from its row goes wrong.
pub open spec fn row_error(tpe: MessageType, row: MessageRow) -> Option<RegularMessageError> {
    if tpe is ContactVcard && row.vcard is None {
        Some(RegularMessageError::MissingVcard)
    } else if (tpe is StaticLocation || tpe is LiveLocation) && (row.latitude is None || row.longitude is None) {
        Some(RegularMessageError::MissingCoordinates)
    } else {
        None
    }
}

/// Whether `typed` is the regular message a row of the given type makes.
pub open spec fn regular_of(tpe: MessageType, row: MessageRow, keys: Seq<(String, i64)>, typed: MessageTyped) -> bool {
    match typed {
        MessageTyped::Regular(reg) => {
            &&& contents_of(tpe, row, reg.contents@)
            &&& reg.is_deleted == (tpe is Deleted)
            &&& (match (if tpe is Deleted { row.revoke_timestamp } else { row.edited_timestamp }) {
                Some(ts) => reg.edit_timestamp_option matches Some(e) && e == millis_to_secs(ts),
                None => reg.edit_timestamp_option is None,
            })
            &&& (match row.forward_score {
                Some(_) => opt_chars(reg.forward_from_name_option) == Some(SOMEONE@),
                None => reg.forward_from_name_option is None,
            })
            &&& reg.reply_to_message_id_option == match row.parent_key_id {
                Some(k) => source_id_of(keys, k@),
                None => None,
            }
        },
        _ => false,
    }
}

/// Characters of an optional string slice.
pub open spec fn opt_str_chars(o: Option<&str>) -> Option<Seq<char>> {
    match o {
        Some(c) => Some(c@),
        None => None,
    }
}

/// The kind of a regular message's content follows its type: texts and deleted messages have
/// none, pictures are photos, audio messages voice messages, videos and GIFs video messages,
/// documents files, animated stickers stickers, vCards shared contacts and locations
/// locations; each of those has exactly one content.
pub proof fn law_content_kind_follows_type(tpe: MessageType, row: MessageRow, keys: Seq<(String, i64)>, typed: MessageTyped)
    requires
        regular_of(tpe, row, keys, typed),
    ensures
        typed is Regular,
        (tpe is Text || tpe is Deleted) <==> typed->Regular_0.contents@.len() == 0,
        !(tpe is Text || tpe is Deleted) ==> ({
            let c = typed->Regular_0.contents@[0].sealed_value_optional;
            &&& typed->Regular_0.contents@.len() == 1
            &&& c is Some
            &&& (tpe is Picture || tpe is OneTimePhoto) <==> (c.unwrap() is Photo)
            &&& (tpe is Audio) <==> (c.unwrap() is VoiceMsg)
            &&& (tpe is Video || tpe is AnimatedGif || tpe is OneTimeVideo) <==> (c.unwrap() is VideoMsg)
            &&& (tpe is Document) <==> (c.unwrap() is File)
            &&& (tpe is AnimatedSticker) <==> (c.unwrap() is Sticker)
            &&& (tpe is ContactVcard) <==> (c.unwrap() is SharedContact)
            &&& (tpe is StaticLocation || tpe is LiveLocation) <==> (c.unwrap() is Location)
        }),
{
}

/// Whether `r` is what reading a regular message of the given type from its row gives:
/// nothing for the types that are skipped, the error where the row lacks what the type needs,
/// and otherwise the message with the column its text is in.
pub open spec fn regular_outcome(
    tpe: MessageType,
    row: MessageRow,
    keys: Seq<(String, i64)>,
    r: Result<Option<(MessageTyped, Option<&str>)>, RegularMessageError>,
) -> bool {
    if is_skipped_type(tpe) {
        r is Ok && r->Ok_0 is None
    } else {
        match row_error(tpe, row) {
            Some(e) => r == Err::<Option<(MessageTyped, Option<&str>)>, RegularMessageError>(e),
            None => match r {
                Ok(Some((typed, col))) => regular_of(tpe, row, keys, typed) && opt_str_chars(col) == text_column_of(tpe),
                _ => false,
            },
        }
    }
}

/// Whether a message type can be read as a regular message from a row: system messages and
/// calls are read elsewhere; media that need a size have one, those that need a MIME type
/// have one, a sticker's size can be doubled, and coordinates can be cut between characters.
pub open spec fn readable(tpe: MessageType, row: MessageRow) -> bool {
    &&& !(tpe is System || tpe is MissedCall || tpe is VideoCall)
    &&& (tpe is Picture || tpe is OneTimePhoto || tpe is Video || tpe is AnimatedGif || tpe is OneTimeVideo
        || tpe is AnimatedSticker) ==> nonzero(row.width) is Some && nonzero(row.height) is Some
    &&& tpe is AnimatedSticker ==> enlargeable(row.width.unwrap() as int, row.height.unwrap() as int)
    &&& (tpe is Audio || tpe is Video || tpe is AnimatedGif || tpe is OneTimeVideo) ==> mime_of(row.mime_type) is Some
    &&& (tpe is StaticLocation || tpe is LiveLocation) ==> {
        &&& (row.latitude matches Some(l) ==> cut_at_char(l@))
        &&& (row.longitude matches Some(l) ==> cut_at_char(l@))
    }
}

fn photo_content(path_option: Option<String>, width: i32, height: i32, mime_type_option: Option<String>, is_one_time: bool) -> (c: Content)
    ensures
        c.sealed_value_optional == Some(ContentValue::Photo(ContentPhoto { path_option, width, height, mime_type_option, is_one_time })),
{
    Content { sealed_value_optional: Some(ContentValue::Photo(ContentPhoto { path_option, width, height, mime_type_option, is_one_time })) }
}

/// What a regular message becomes: its typed part and the column its text is in, see
/// [`regular_outcome`]. `keys` gives the source ID of each message by its key, for replies.
pub fn parse_regular_message(
    row: MessageRow,
    msg_tpe: MessageType,
    keys: &Vec<(String, i64)>,
) -> (r: Result<Option<(MessageTyped, Option<&'static str>)>, RegularMessageError>)
    requires
        readable(msg_tpe, row),
    ensures
        regular_outcome(msg_tpe, row, keys@, r),
{
    let ghost g = row;
    let MessageRow {
        file_path,
        media_name,
        width,
        height,
        mime_type,
        media_duration,
        vcard,
        latitude,
        longitude,
        place_name,
        place_address,
        live_location_share_duration,
        forward_score,
        parent_key_id,
        edited_timestamp,
        revoke_timestamp,
    } = row;
    let mime_type_option: Option<String> = match mime_type {
        Some(m) => if m.as_str().is_empty() { None } else { Some(m) },
        None => None,
    };
    let file_name_option = file_name_of(&media_name, &file_path);
    let ghost name = media_file_name(g.media_name, g.file_path);
    let ghost mime = mime_of(g.mime_type);
    proof {
        assert(opt_chars(mime_type_option) == mime);
        assert(opt_chars(file_name_option) == name);
        reveal_strlit("text_data");
        reveal_strlit("media_caption");
    }
    let (contents, text_column): (Vec<Content>, Option<&'static str>) = match msg_tpe {
        MessageType::Text => (Vec::new(), Some(TEXT_COLUMN)),
        MessageType::Picture => {
            let w = zero_as_null(width).unwrap();
            let h = zero_as_null(height).unwrap();
            (vec![photo_content(file_path, w, h, mime_type_option, false)], Some(TEXT_COLUMN))
        },
        MessageType::OneTimePhoto => {
            let w = zero_as_null(width).unwrap();
            let h = zero_as_null(height).unwrap();
            (vec![photo_content(None, w, h, mime_type_option, true)], None)
        },
        MessageType::Audio => {
            let c = Content {
                sealed_value_optional: Some(ContentValue::VoiceMsg {
                    path_option: file_path,
                    file_name_option,
                    mime_type: mime_type_option.unwrap(),
                    duration_sec_option: zero_as_null(media_duration),
                }),
            };
            (vec![c], Some(TEXT_COLUMN))
        },
        MessageType::Video | MessageType::AnimatedGif => {
            let c = Content {
                sealed_value_optional: Some(ContentValue::VideoMsg {
                    path_option: file_path,
                    file_name_option,
                    width: zero_as_null(width).unwrap(),
                    height: zero_as_null(height).unwrap(),
                    mime_type: mime_type_option.unwrap(),
                    duration_sec_option: zero_as_null(media_duration),
                    thumbnail_path_option: None,
                    is_one_time: false,
                }),
            };
            (vec![c], None)
        },
        MessageType::OneTimeVideo => {
            let c = Content {
                sealed_value_optional: Some(ContentValue::VideoMsg {
                    path_option: None,
                    file_name_option: None,
                    width: zero_as_null(width).unwrap(),
                    height: zero_as_null(height).unwrap(),
                    mime_type: mime_type_option.unwrap(),
                    duration_sec_option: zero_as_null(media_duration),
                    thumbnail_path_option: None,
                    is_one_time: true,
                }),
            };
            (vec![c], Some(TEXT_COLUMN))
        },
        MessageType::Document => {
            let c = Content {
                sealed_value_optional: Some(ContentValue::File {
                    path_option: file_path,
                    file_name_option,
                    mime_type_option,
                    thumbnail_path_option: None,
                }),
            };
            (vec![c], Some(CAPTION_COLUMN))
        },
        MessageType::AnimatedSticker => {
            let (w, h) = enlarge(zero_as_null(width).unwrap(), zero_as_null(height).unwrap());
            let c = Content {
                sealed_value_optional: Some(ContentValue::Sticker {
                    path_option: file_path,
                    file_name_option,
                    width: w,
                    height: h,
                    mime_type_option,
                    thumbnail_path_option: None,
                    emoji_option: None,
                }),
            };
            (vec![c], Some(TEXT_COLUMN))
        },
        MessageType::ContactVcard => {
            let contact = match vcard {
                Some(v) => v,
                None => {
                    return Err(RegularMessageError::MissingVcard);
                },
            };
            let c = Content {
                sealed_value_optional: Some(ContentValue::SharedContact {
                    first_name_option: Some(contact.full_name),
                    last_name_option: None,
                    phone_number_option: Some(contact.phone_number),
                    vcard_path_option: None,
                }),
            };
            (vec![c], None)
        },
        MessageType::StaticLocation | MessageType::LiveLocation => {
            let (lat, lon) = match (latitude, longitude) {
                (Some(lat), Some(lon)) => (lat, lon),
                _ => {
                    return Err(RegularMessageError::MissingCoordinates);
                },
            };
            let c = Content {
                sealed_value_optional: Some(ContentValue::Location {
                    title_option: place_name,
                    address_option: place_address,
                    lat_str: reduce_precision(lat),
                    lon_str: reduce_precision(lon),
                    duration_sec_option: live_location_share_duration,
                }),
            };
            (vec![c], Some(TEXT_COLUMN))
        },
        MessageType::Deleted => (Vec::new(), Some(TEXT_COLUMN)),
        _ => {
            return Ok(None);
        },
    };
    proof {
        assert(contents_of(msg_tpe, g, contents@));
    }
    let forward_from_name_option = match forward_score {
        Some(_) => Some(SOMEONE.to_owned()),
        None => None,
    };
    let reply_to_message_id_option = match &parent_key_id {
        Some(k) => lookup_source_id(keys, k.as_str()),
        None => None,
    };
    let is_deleted = match msg_tpe {
        MessageType::Deleted => true,
        _ => false,
    };
    let edit_ts = if is_deleted { revoke_timestamp } else { edited_timestamp };
    let edit_timestamp_option = match edit_ts {
        Some(ts) => Some(ts / 1000),
        None => None,
    };
    let typed = MessageTyped::Regular(MessageRegular {
        edit_timestamp_option,
        is_deleted,
        forward_from_name_option,
        reply_to_message_id_option,
        contents,
    });
    proof {
        assert(regular_of(msg_tpe, g, keys@, typed));
    }
    Ok(Some((typed, text_column)))
}

} // verus!