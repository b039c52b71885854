//! Messages and chats of Tinder Android databases: plain text messages, and GIFs sent as
//! Tenor links, which become stickers of a file downloaded next to the database.
use vstd::prelude::*;
use crate::ids::{UserId, NO_INTERNAL_ID};
use crate::model::{Chat, ChatWithMessages, Content, ContentValue, Message, MessageRegular, MessageTyped, PbUuid,
    RichTextElement, RteVal, User};
use crate::numbers::{decimal, parsed_i32, i64_to_decimal};
use crate::ext::parse_i32;
use crate::rich_text::{RichText, normalized_searchable};
use crate::rich_text_norm::{normalize_rich_text, plains_joined, blank_trimmed};
use crate::whatsapp::millis_to_secs;
use crate::whatsapp_chat::{number_messages, numbered};
use crate::searchable::searchable_string_spec;
use crate::utils::hash_to_id;
use crate::whitespace::chars_of;
use crate::text::str_eq;

verus! {

/// The user ID of myself: the first legal one.
pub const TINDER_MYSELF_ID: i64 = 1;

/// Where downloaded media are stored, relative to the dataset root.
pub const RELATIVE_MEDIA_DIR: &'static str = "Media/_downloaded";

/// How the links to GIFs hosted by Tenor start.
pub const TENOR_PREFIX: &'static str = "https://media.tenor.com/";

/// Why a message could not be read.
#[derive(Clone, Copy, Debug, PartialEq, Eq, Structural)]
pub enum TinderError {
    /// The width or height given in a GIF's link is not an integer.
    BadSize,
}

/// Whether a message's text is a link to a GIF hosted by Tenor.
pub open spec fn is_tenor(t: Seq<char>) -> bool {
    t.len() >= TENOR_PREFIX@.len() && t.take(TENOR_PREFIX@.len() as int) == TENOR_PREFIX@
}

/// Characters that separate the parameters of a link, and the first of them from the rest.
pub open spec fn param_sep(c: char) -> bool {
    c == '?' || c == '&'
}

/// Whether a parameter starting with `key` starts at position `p`, just after a separator.
pub open spec fn param_at(t: Seq<char>, p: int, key: Seq<char>) -> bool {
    &&& 1 <= p && p + key.len() <= t.len()
    &&& param_sep(t[p - 1])
    &&& t.subrange(p, p + key.len()) == key
}

/// The first position from `q` on that holds a separator, or the length of the text.
pub open spec fn next_sep(t: Seq<char>, q: int) -> int
    decreases t.len() - q,
{
    if q >= t.len() {
        t.len() as int
    } else if param_sep(t[q]) {
        q
    } else {
        next_sep(t, q + 1)
    }
}

/// The first position from `p` on where a parameter starting with `key` starts.
pub open spec fn first_param(t: Seq<char>, key: Seq<char>, p: int) -> Option<int>
    decreases t.len() + 1 - p,
{
    if p < 1 || p > t.len() {
        None
    } else if param_at(t, p, key) {
        Some(p)
    } else {
        first_param(t, key, p + 1)
    }
}

/// The rest of the first parameter of a link that starts with `key`, if any.
pub open spec fn param_value(t: Seq<char>, key: Seq<char>) -> Option<Seq<char>> {
    match first_param(t, key, 1) {
        Some(p) => Some(t.subrange(p + key.len(), next_sep(t, p + key.len()))),
        None => None,
    }
}

/// A size given in a link: zero where the parameter is missing, none where it is no integer.
pub open spec fn size_param(t: Seq<char>, key: Seq<char>) -> Option<i32> {
    match param_value(t, key) {
        Some(v) => parsed_i32(v),
        None => Some(0),
    }
}

/// Whether the width and height given in a link, where they are given, are integers.
pub open spec fn sizes_given(t: Seq<char>) -> bool {
    size_param(t, "width="@) is Some && size_param(t, "height="@) is Some
}

/// Whether twice the width and height given in a link fit.
pub open spec fn sizes_fit(t: Seq<char>) -> bool {
    sizes_given(t) ==> {
        let w = size_param(t, "width="@).unwrap();
        let h = size_param(t, "height="@).unwrap();
        i32::MIN <= 2 * w <= i32::MAX && i32::MIN <= 2 * h <= i32::MAX
    }
}

/// The name of the file a GIF is downloaded to, after the hash of its link.
pub open spec fn gif_file_name(text_hash: i64) -> Seq<char> {
    decimal(text_hash as int) + ".gif"@
}

/// Whether a content is the sticker a GIF's link becomes: its downloaded file, at twice the
/// size the link gives.
pub open spec fn gif_sticker(c: ContentValue, t: Seq<char>, text_hash: i64) -> bool {
    match c {
        ContentValue::Sticker {
            path_option,
            file_name_option,
            width,
            height,
            mime_type_option,
            thumbnail_path_option,
            emoji_option,
        } => {
            &&& path_option matches Some(p) && p@ == RELATIVE_MEDIA_DIR@ + "/"@ + gif_file_name(text_hash)
            &&& file_name_option matches Some(f) && f@ == gif_file_name(text_hash)
            &&& width == 2 * size_param(t, "width="@).unwrap()
            &&& height == 2 * size_param(t, "height="@).unwrap()
            &&& mime_type_option is None && thumbnail_path_option is None && emoji_option is None
        },
        _ => false,
    }
}

/// Whether `out` is the normalized text of a message holding the plain text `t`.
pub open spec fn plain_text_of(t: String, out: Seq<RichTextElement>) -> bool {
    exists|e: RichTextElement, joined: Seq<RichTextElement>| {
        &&& e.val == Some(RteVal::Plain { text: t })
        &&& e.searchable_string@ == normalized_searchable(t@)
        &&& #[trigger] plains_joined(seq![e], joined)
        &&& blank_trimmed(joined, out)
    }
}

/// Whether `r` is what a message row becomes, given the hashes of its ID and its text: a
/// regular message, numbered later, sent at the row's time in seconds, by the other person or
/// by myself. A Tenor link becomes a sticker of its GIF, whose file name is given along, and no
/// text; other text stays plain text. A link whose width or height is no integer is an error.
pub open spec fn tinder_outcome(
    r: Result<(Message, Option<String>), TinderError>,
    source_hash: i64,
    text_hash: i64,
    sent_date_ms: i64,
    from_is_user: bool,
    user_id: i64,
    text: String,
) -> bool {
    let t = text@;
    if is_tenor(t) && !sizes_given(t) {
        r == Err::<(Message, Option<String>), TinderError>(TinderError::BadSize)
    } else {
        r matches Ok((m, f)) && {
            &&& m.internal_id == NO_INTERNAL_ID
            &&& m.source_id_option == Some(source_hash)
            &&& m.timestamp == millis_to_secs(sent_date_ms)
            &&& m.from_id == (if from_is_user {
                user_id
            } else {
                TINDER_MYSELF_ID
            })
            &&& m.typed matches Some(typed) && m.searchable_string@ == searchable_string_spec(m.text@, typed)
            &&& m.typed matches Some(MessageTyped::Regular(mr)) && {
                &&& mr.edit_timestamp_option is None && !mr.is_deleted
                &&& mr.forward_from_name_option is None && mr.reply_to_message_id_option is None
                &&& if is_tenor(t) {
                    &&& m.text@.len() == 0
                    &&& mr.contents@.len() == 1
                    &&& mr.contents@[0].sealed_value_optional matches Some(c) && gif_sticker(c, t, text_hash)
                    &&& f matches Some(name) && name@ == gif_file_name(text_hash)
                } else {
                    &&& mr.contents@.len() == 0
                    &&& f is None
                    &&& plain_text_of(text, m.text@)
                }
            }
        }
    }
}

/// Whether `key` occurs in `t` at position `p`.
fn occurs_at(t: &Vec<char>, p: usize, key: &Vec<char>) -> (r: bool)
    requires
        p <= t@.len(),
    ensures
        r == (p + key@.len() <= t@.len() && t@.subrange(p as int, p + key@.len()) == key@),
{
    let n = t.len();
    let m = key.len();
    if m > n || p > n - m {
        return false;
    }
    let mut k: usize = 0;
    while k < m
        invariant
            n == t@.len(),
            m == key@.len(),
            p + m <= n,
            k <= m,
            forall|j: int| 0 <= j < k ==> t@[p + j] == key@[j],
        decreases m - k,
    {
        if t[p + k] != key[k] {
            assert(t@.subrange(p as int, p + m)[k as int] != key@[k as int]);
            return false;
        }
        k = k + 1;
    }
    assert(t@.subrange(p as int, p + m) =~= key@);
    true
}

/// The positions of the rest of the first parameter of a link that starts with `key`, see
/// [`param_value`].
fn find_param(t: &Vec<char>, key: &Vec<char>) -> (r: Option<(usize, usize)>)
    ensures
        match param_value(t@, key@) {
            Some(v) => r matches Some((a, b)) && a <= b <= t@.len() && t@.subrange(a as int, b as int) == v,
            None => r is None,
        },
{
    let n = t.len();
    let mut i: usize = 0;
    while i < n
        invariant
            n == t@.len(),
            i <= n,
            first_param(t@, key@, 1) == first_param(t@, key@, i + 1),
        decreases n - i,
    {
        let p = i + 1;
        let c = t[i];
        if (c == '?' || c == '&') && occurs_at(t, p, key) {
            assert(param_at(t@, p as int, key@));
            let start = p + key.len();
            let mut q: usize = start;
            while q < n && t[q] != '?' && t[q] != '&'
                invariant
                    n == t@.len(),
                    start <= q <= n,
                    next_sep(t@, start as int) == next_sep(t@, q as int),
                decreases n - q,
            {
                q = q + 1;
            }
            assert(next_sep(t@, q as int) == q);
            return Some((start, q));
        }
        i = i + 1;
    }
    None
}

/// A size given in a link, see [`size_param`].
fn size_of(text: &str, t: &Vec<char>, key: &str) -> (r: Option<i32>)
    requires
        t@ == text@,
    ensures
        r == size_param(text@, key@),
{
    let k = chars_of(key);
    match find_param(t, &k) {
        None => Some(0),
        Some((a, b)) => {
            let v = text.substring_char(a, b);
            parse_i32(v)
        },
    }
}

/// What a message row becomes, given the hashes of its ID and its text, as [`tinder_outcome`]
/// says.
pub fn tinder_message_from(
    source_hash: i64,
    text_hash: i64,
    sent_date_ms: i64,
    from_is_user: bool,
    user_id: i64,
    text: String,
) -> (r: Result<(Message, Option<String>), TinderError>)
    requires
        sizes_fit(text@),
    ensures
        tinder_outcome(r, source_hash, text_hash, sent_date_ms, from_is_user, user_id, text),
{
    let ghost g = text;
    let from = if from_is_user {
        user_id
    } else {
        TINDER_MYSELF_ID
    };
    let chars = chars_of(text.as_str());
    let plen = TENOR_PREFIX.unicode_len();
    let tenor = chars.len() >= plen && str_eq(text.as_str().substring_char(0, plen), TENOR_PREFIX);
    proof {
        assert(tenor == is_tenor(g@)) by {
            if g@.len() >= TENOR_PREFIX@.len() {
                assert(g@.subrange(0, TENOR_PREFIX@.len() as int) =~= g@.take(TENOR_PREFIX@.len() as int));
            }
        }
    }
    let (rtes, contents, file): (Vec<RichTextElement>, Vec<Content>, Option<String>) = if tenor {
        let w = match size_of(text.as_str(), &chars, "width=") {
            Some(w) => w,
            None => return Err(TinderError::BadSize),
        };
        let h = match size_of(text.as_str(), &chars, "height=") {
            Some(h) => h,
            None => return Err(TinderError::BadSize),
        };
        let mut name = i64_to_decimal(text_hash);
        name.append(".gif");
        let mut path = RELATIVE_MEDIA_DIR.to_owned();
        path.append("/");
        path.append(name.as_str());
        proof {
            reveal_strlit(".gif");
            reveal_strlit("/");
            assert(name@ =~= gif_file_name(text_hash));
            assert(path@ =~= RELATIVE_MEDIA_DIR@ + "/"@ + gif_file_name(text_hash));
        }
        let sticker = ContentValue::Sticker {
            path_option: Some(path),
            file_name_option: Some(name.clone()),
            width: w * 2,
            height: h * 2,
            mime_type_option: None,
            thumbnail_path_option: None,
            emoji_option: None,
        };
        (Vec::new(), vec![Content { sealed_value_optional: Some(sticker) }], Some(name))
    } else {
        let e = RichText::make_plain(text);
        let input = vec![e];
        proof {
            assert(input@ =~= seq![e]);
        }
        let out = normalize_rich_text(input);
        (out, Vec::new(), None)
    };
    let typed = MessageTyped::Regular(MessageRegular {
        edit_timestamp_option: None,
        is_deleted: false,
        forward_from_name_option: None,
        reply_to_message_id_option: None,
        contents,
    });
    Ok((Message::new(NO_INTERNAL_ID, Some(source_hash), sent_date_ms / 1000, UserId(from), rtes, typed), file))
}

/// What a message row becomes, as [`tinder_outcome`] says, its ID and text being hashed to
/// numbers (which numbers depends on the hasher, which depends on the machine's word size).
/// The caller downloads the GIF, if any, to the file whose name is given along.
pub fn tinder_message(
    source_id: &str,
    sent_date_ms: i64,
    from_is_user: bool,
    user_id: i64,
    text: String,
) -> (r: Result<(Message, Option<String>), TinderError>)
    requires
        sizes_fit(text@),
    ensures
        exists|source_hash: i64, text_hash: i64| source_hash >= 0 && text_hash >= 0
            && tinder_outcome(r, source_hash, text_hash, sent_date_ms, from_is_user, user_id, text),
{
    let source_hash = hash_to_id(source_id);
    let text_hash = hash_to_id(text.as_str());
    tinder_message_from(source_hash, text_hash, sent_date_ms, from_is_user, user_id, text)
}

/// The chat with the given person: a one-on-one chat named by their first name, whose members
/// are myself and them, with the messages numbered in the order given (the order they were
/// sent in).
pub fn tinder_chat(ds_uuid: &PbUuid, user: &User, messages: Vec<Message>, source_type: i32, personal_tpe: i32) -> (r: ChatWithMessages)
    requires
        messages@.len() <= i32::MAX,
    ensures
        numbered(r.messages@, messages@),
        r.chat.ds_uuid == *ds_uuid,
        r.chat.id == user.id,
        r.chat.name_option == user.first_name_option,
        r.chat.source_type == source_type,
        r.chat.tpe == personal_tpe,
        r.chat.img_path_option is None,
        r.chat.member_ids@ == seq![TINDER_MYSELF_ID, user.id],
        r.chat.msg_count == messages@.len(),
        r.chat.main_chat_id is None,
{
    let n = messages.len();
    let numbered_messages = number_messages(messages);
    let name_option = match &user.first_name_option {
        Some(s) => Some(s.clone()),
        None => None,
    };
    ChatWithMessages {
        chat: Chat {
            ds_uuid: ds_uuid.clone(),
            id: user.id,
            name_option,
            source_type,
            tpe: personal_tpe,
            img_path_option: None,
            member_ids: vec![TINDER_MYSELF_ID, user.id],
            msg_count: n as i32,
            main_chat_id: None,
        },
        messages: numbered_messages,
    }
}

} // verus!
