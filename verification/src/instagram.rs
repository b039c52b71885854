//! Messages of Instagram exports: text (whose encoding the export garbles), shared links,
//! photos, videos, voice messages, live locations and reactions, from the fields a message's
//! JSON object holds.
use vstd::prelude::*;
use crate::ids::{UserId, NO_INTERNAL_ID};
use crate::model::{Content, ContentPhoto, ContentValue, Message, MessageRegular, MessageTyped, RichTextElement, RteVal};
use crate::ext::string_from_utf8;
use crate::rich_text::{RichText, link_searchable, normalized_searchable};
use crate::rich_text_norm::{normalize_rich_text, plains_joined, blank_trimmed};
use crate::searchable::searchable_string_spec;
use crate::text::{opt_chars, str_eq};
use crate::whatsapp::millis_to_secs;
use crate::whitespace::chars_of;

verus! {

/// A shared post or reel.
#[derive(Debug)]
pub struct InstagramShare {
    pub link: String,
    pub share_text: String,
}

/// A video, with the thumbnail's address where it has one.
#[derive(Debug)]
pub struct InstagramVideo {
    pub uri: String,
    pub thumbnail: Option<String>,
}

/// A reaction to a message, with the name of who reacted.
#[derive(Debug)]
pub struct InstagramReaction {
    pub reaction: String,
    pub actor: String,
}

/// The fields of a message of an Instagram export, as they are written there: the content
/// where it is text, and of the photos, videos, voice messages and reactions those whose
/// fields are text.
#[derive(Debug)]
pub struct InstagramMessage {
    pub sender_name: String,
    pub timestamp_ms: i64,
    pub content: Option<String>,
    pub share: Option<InstagramShare>,
    pub photos: Vec<String>,
    pub videos: Vec<InstagramVideo>,
    pub audio_files: Vec<String>,
    pub reactions: Vec<InstagramReaction>,
}

/// The bytes a garbled text stands for: each character is one byte of the original UTF-8.
pub open spec fn latin1_bytes(s: Seq<char>) -> Seq<u8> {
    s.map_values(|c: char| (c as u32 % 256) as u8)
}

/// A text as it was written: the UTF-8 its characters stand for as bytes, or the text as it
/// is where those bytes are no UTF-8.
pub open spec fn fixed_text(s: Seq<char>) -> Seq<char> {
    if vstd::utf8::valid_utf8(latin1_bytes(s)) {
        vstd::utf8::decode_utf8(latin1_bytes(s))
    } else {
        s
    }
}

/// A garbled text as it was written, see [`fixed_text`].
pub fn fix_encoding(s: &str) -> (r: String)
    ensures
        r@ == fixed_text(s@),
{
    let chars = chars_of(s);
    let mut bytes: Vec<u8> = Vec::new();
    let mut i: usize = 0;
    while i < chars.len()
        invariant
            chars@ == s@,
            i <= chars@.len(),
            bytes@ == latin1_bytes(s@.take(i as int)),
        decreases chars@.len() - i,
    {
        let c = chars[i];
        bytes.push(((c as u32) % 256) as u8);
        proof {
            assert(latin1_bytes(s@.take(i + 1)) =~= latin1_bytes(s@.take(i as int)).push(((c as u32) % 256) as u8));
        }
        i = i + 1;
    }
    assert(s@.take(chars@.len() as int) =~= s@);
    match string_from_utf8(bytes) {
        Some(t) => t,
        None => s.to_owned(),
    }
}

/// Whether a text ends with the given suffix.
pub open spec fn ends_with(s: Seq<char>, suffix: Seq<char>) -> bool {
    s.len() >= suffix.len() && s.subrange(s.len() - suffix.len(), s.len() as int) == suffix
}

fn str_ends_with(s: &str, suffix: &str) -> (r: bool)
    ensures
        r == ends_with(s@, suffix@),
{
    let n = s.unicode_len();
    let k = suffix.unicode_len();
    n >= k && str_eq(s.substring_char(n - k, n), suffix)
}

/// Whether a content only says that attachments were sent.
pub open spec fn is_placeholder(c: Seq<char>) -> bool {
    ends_with(c, " sent an attachment."@) || c == "You sent an attachment."@
}

/// Whether a content says that a live location was sent.
pub open spec fn is_live_location(c: Seq<char>) -> bool {
    ends_with(c, " sent a live location."@)
}

/// The content of a message as it was written.
pub open spec fn fixed_content(m: InstagramMessage) -> Option<Seq<char>> {
    match m.content {
        Some(c) => Some(fixed_text(c@)),
        None => None,
    }
}

/// A rich text element to be, by its text.
pub enum PartView {
    Plain(Seq<char>),
    Link(Option<Seq<char>>, Seq<char>),
}

/// A content to be, by its paths.
pub enum ContentView {
    Photo(Seq<char>),
    Video(Seq<char>, Option<Seq<char>>),
    Voice(Seq<char>),
    LiveLocation,
}

/// The text of a message before its reactions: its content unless that only tells of
/// attachments or a live location, and the link it shares, titled by its text where it has
/// one.
pub open spec fn base_parts(m: InstagramMessage) -> Seq<PartView> {
    let c = match fixed_content(m) {
        Some(c) => if !is_placeholder(c) && !is_live_location(c) {
            seq![PartView::Plain(c)]
        } else {
            Seq::empty()
        },
        None => Seq::empty(),
    };
    let s = match m.share {
        Some(sh) => seq![
            PartView::Link(
                if fixed_text(sh.share_text@).len() == 0 {
                    None
                } else {
                    Some(fixed_text(sh.share_text@))
                },
                sh.link@,
            ),
        ],
        None => Seq::empty(),
    };
    c + s
}

/// The contents of a message: its photos, videos and voice messages, then a live location where
/// the content tells of one.
pub open spec fn content_views(m: InstagramMessage) -> Seq<ContentView> {
    m.photos@.map_values(|u: String| ContentView::Photo(u@)) + m.videos@.map_values(
        |v: InstagramVideo| ContentView::Video(v.uri@, opt_chars(v.thumbnail)),
    ) + m.audio_files@.map_values(|u: String| ContentView::Voice(u@)) + (match fixed_content(m) {
        Some(c) => if is_live_location(c) {
            seq![ContentView::LiveLocation]
        } else {
            Seq::empty()
        },
        None => Seq::empty(),
    })
}

/// A reaction as it is shown: the reaction, a space, and who reacted.
pub open spec fn reaction_text(r: InstagramReaction) -> Seq<char> {
    fixed_text(r.reaction@) + " "@ + fixed_text(r.actor@)
}

/// Reactions as they are shown, separated by commas.
pub open spec fn reactions_joined(rs: Seq<InstagramReaction>) -> Seq<char>
    decreases rs.len(),
{
    if rs.len() == 0 {
        Seq::empty()
    } else if rs.len() == 1 {
        reaction_text(rs[0])
    } else {
        reactions_joined(rs.drop_last()) + ", "@ + reaction_text(rs.last())
    }
}

/// The text of a message: its text before reactions, then, where it has reactions, a line
/// break (where there is text before) and the reactions in brackets.
pub open spec fn all_parts(m: InstagramMessage) -> Seq<PartView> {
    let b = base_parts(m);
    if m.reactions@.len() == 0 {
        b
    } else {
        (if b.len() > 0 {
            b.push(PartView::Plain("\n"@))
        } else {
            b
        }).push(PartView::Plain("["@ + reactions_joined(m.reactions@) + "]"@))
    }
}

/// Whether a message is left out: a like notification, or one with neither text nor contents
/// before its reactions.
pub open spec fn skipped(m: InstagramMessage) -> bool {
    fixed_content(m) == Some("Liked a message"@) || (base_parts(m).len() == 0 && content_views(m).len() == 0)
}

/// Like notifications are left out; a content that only tells of attachments, or of a live
/// location, is no text; and a live location becomes the last content.
pub proof fn law_notices_are_not_text(m: InstagramMessage)
    ensures
        fixed_content(m) == Some("Liked a message"@) ==> skipped(m),
        m.share is None && (fixed_content(m) matches Some(c) && (ends_with(c, " sent an attachment."@)
            || ends_with(c, " sent a live location."@))) ==> base_parts(m).len() == 0,
        (fixed_content(m) matches Some(c) && ends_with(c, " sent a live location."@)) ==> content_views(m).len() > 0
            && content_views(m).last() == ContentView::LiveLocation,
        (fixed_content(m) matches Some(c) && !ends_with(c, " sent a live location."@)) ==> content_views(m).len()
            == m.photos@.len() + m.videos@.len() + m.audio_files@.len(),
{
}

/// Whether a rich text element is the one a part stands for.
pub open spec fn part_element(e: RichTextElement, p: PartView) -> bool {
    match p {
        PartView::Plain(s) => e.val matches Some(RteVal::Plain { text }) && text@ == s
            && e.searchable_string@ == normalized_searchable(s),
        PartView::Link(t, h) => e.val matches Some(RteVal::Link { text_option, href, hidden }) && opt_chars(
            text_option,
        ) == t && href@ == h && !hidden && e.searchable_string@ == link_searchable(t, h),
    }
}

/// Whether a content is the one a view stands for: photos and videos of unknown size, videos
/// as MP4 and voice messages as MP4 audio, and a live location with no coordinates.
pub open spec fn content_is(c: Content, v: ContentView) -> bool {
    match (c.sealed_value_optional, v) {
        (Some(ContentValue::Photo(p)), ContentView::Photo(u)) => p.path_option matches Some(x) && x@ == u && p.width == 0
            && p.height == 0 && p.mime_type_option is None && !p.is_one_time,
        (
            Some(
                ContentValue::Video {
                    path_option,
                    file_name_option,
                    title_option,
                    performer_option,
                    width,
                    height,
                    mime_type,
                    duration_sec_option,
                    thumbnail_path_option,
                    is_one_time,
                },
            ),
            ContentView::Video(u, t),
        ) => {
            &&& path_option matches Some(x) && x@ == u
            &&& file_name_option is None && title_option is None && performer_option is None
            &&& width == 0 && height == 0 && mime_type@ == "video/mp4"@ && duration_sec_option is None
            &&& opt_chars(thumbnail_path_option) == t && !is_one_time
        },
        (
            Some(ContentValue::VoiceMsg { path_option, file_name_option, mime_type, duration_sec_option }),
            ContentView::Voice(u),
        ) => path_option matches Some(x) && x@ == u && file_name_option is None && mime_type@ == "audio/mp4"@
            && duration_sec_option is None,
        (
            Some(ContentValue::Location { title_option, address_option, lat_str, lon_str, duration_sec_option }),
            ContentView::LiveLocation,
        ) => title_option is None && address_option is None && lat_str@.len() == 0 && lon_str@.len() == 0
            && duration_sec_option is None,
        _ => false,
    }
}

/// Whether `out` is the normalized text made of the given parts.
pub open spec fn text_of_parts(parts: Seq<PartView>, out: Seq<RichTextElement>) -> bool {
    exists|es: Seq<RichTextElement>, joined: Seq<RichTextElement>| {
        &&& es.len() == parts.len()
        &&& forall|i: int| 0 <= i < es.len() ==> part_element(#[trigger] es[i], parts[i])
        &&& #[trigger] plains_joined(es, joined)
        &&& blank_trimmed(joined, out)
    }
}

fn push_plain(es: &mut Vec<RichTextElement>, Ghost(ps): Ghost<Seq<PartView>>, s: String) -> (r: Ghost<Seq<PartView>>)
    requires
        old(es)@.len() == ps.len(),
        forall|i: int| 0 <= i < ps.len() ==> part_element(#[trigger] old(es)@[i], ps[i]),
    ensures
        r@ == ps.push(PartView::Plain(s@)),
        final(es)@.len() == r@.len(),
        forall|i: int| 0 <= i < r@.len() ==> part_element(#[trigger] final(es)@[i], r@[i]),
{
    let ghost t = s@;
    es.push(RichText::make_plain(s));
    let ghost r = ps.push(PartView::Plain(t));
    assert(part_element(es@[ps.len() as int], r[ps.len() as int]));
    Ghost(r)
}

/// The message the fields of a message of an export stand for, sent by the given user (known
/// by the name the message gives, as it was written), unless it is left out, see
/// [`skipped`]. It is a regular message with no source ID, sent at its time in seconds, whose
/// text is made of [`all_parts`] and whose contents are [`content_views`].
pub fn instagram_message(m: &InstagramMessage, from_id: i64) -> (r: Option<Message>)
    ensures
        r is None <==> skipped(*m),
        r matches Some(msg) ==> {
            &&& msg.internal_id == NO_INTERNAL_ID
            &&& msg.source_id_option is None
            &&& msg.timestamp == millis_to_secs(m.timestamp_ms)
            &&& msg.from_id == from_id
            &&& msg.typed matches Some(typed) && msg.searchable_string@ == searchable_string_spec(msg.text@, typed)
            &&& text_of_parts(all_parts(*m), msg.text@)
            &&& msg.typed matches Some(MessageTyped::Regular(mr)) && {
                &&& mr.edit_timestamp_option is None && !mr.is_deleted
                &&& mr.forward_from_name_option is None && mr.reply_to_message_id_option is None
                &&& mr.contents@.len() == content_views(*m).len()
                &&& forall|i: int| 0 <= i < mr.contents@.len() ==> content_is(#[trigger] mr.contents@[i], content_views(*m)[i])
            }
        },
{
    let content: Option<String> = match &m.content {
        Some(c) => Some(fix_encoding(c.as_str())),
        None => None,
    };
    proof {
        reveal_strlit("Liked a message");
        reveal_strlit(" sent an attachment.");
        reveal_strlit("You sent an attachment.");
        reveal_strlit(" sent a live location.");
        reveal_strlit("\n");
        reveal_strlit("[");
        reveal_strlit("]");
        reveal_strlit(", ");
        reveal_strlit(" ");
        reveal_strlit("video/mp4");
        reveal_strlit("audio/mp4");
    }
    assert(opt_chars(content) == fixed_content(*m));
    if let Some(c) = &content {
        if str_eq(c.as_str(), "Liked a message") {
            return None;
        }
    }
    let mut es: Vec<RichTextElement> = Vec::new();
    let ghost mut ps: Seq<PartView> = Seq::empty();
    let mut is_live = false;
    match content {
        Some(c) => {
            let placeholder = str_ends_with(c.as_str(), " sent an attachment.") || str_eq(
                c.as_str(),
                "You sent an attachment.",
            );
            is_live = str_ends_with(c.as_str(), " sent a live location.");
            if !placeholder && !is_live {
                let Ghost(p) = push_plain(&mut es, Ghost(ps), c);
                proof {
                    ps = p;
                }
            }
        },
        None => {},
    }
    match &m.share {
        Some(sh) => {
            let decoded = fix_encoding(sh.share_text.as_str());
            let ghost dv = decoded@;
            let text_option = if decoded.unicode_len() == 0 {
                None
            } else {
                Some(decoded)
            };
            let e = RichText::make_link(text_option, sh.link.clone(), false);
            let ghost p = PartView::Link(if dv.len() == 0 { None } else { Some(dv) }, sh.link@);
            es.push(e);
            proof {
                assert(part_element(es@[ps.len() as int], p));
                ps = ps.push(p);
            }
        },
        None => {},
    }
    assert(ps =~= base_parts(*m));
    let ghost views = content_views(*m);
    let mut contents: Vec<Content> = Vec::new();
    let mut i: usize = 0;
    while i < m.photos.len()
        invariant
            i <= m.photos@.len(),
            contents@.len() == i,
            views == content_views(*m),
            forall|k: int| 0 <= k < i ==> content_is(#[trigger] contents@[k], views[k]),
        decreases m.photos@.len() - i,
    {
        contents.push(Content {
            sealed_value_optional: Some(ContentValue::Photo(ContentPhoto {
                path_option: Some(m.photos[i].clone()),
                width: 0,
                height: 0,
                mime_type_option: None,
                is_one_time: false,
            })),
        });
        assert(views[i as int] == ContentView::Photo(m.photos@[i as int]@));
        i = i + 1;
    }
    let np = m.photos.len();
    let mut i: usize = 0;
    while i < m.videos.len()
        invariant
            np == m.photos@.len(),
            i <= m.videos@.len(),
            contents@.len() == np + i,
            views == content_views(*m),
            forall|k: int| 0 <= k < np + i ==> content_is(#[trigger] contents@[k], views[k]),
        decreases m.videos@.len() - i,
    {
        let v = &m.videos[i];
        let thumbnail = match &v.thumbnail {
            Some(t) => Some(t.clone()),
            None => None,
        };
        contents.push(Content {
            sealed_value_optional: Some(ContentValue::Video {
                path_option: Some(v.uri.clone()),
                file_name_option: None,
                title_option: None,
                performer_option: None,
                width: 0,
                height: 0,
                mime_type: "video/mp4".to_owned(),
                duration_sec_option: None,
                thumbnail_path_option: thumbnail,
                is_one_time: false,
            }),
        });
        assert(views[np + i] == ContentView::Video(v.uri@, opt_chars(v.thumbnail)));
        i = i + 1;
    }
    let nv = contents.len();
    let mut i: usize = 0;
    while i < m.audio_files.len()
        invariant
            nv == m.photos@.len() + m.videos@.len(),
            i <= m.audio_files@.len(),
            contents@.len() == nv + i,
            views == content_views(*m),
            forall|k: int| 0 <= k < nv + i ==> content_is(#[trigger] contents@[k], views[k]),
        decreases m.audio_files@.len() - i,
    {
        contents.push(Content {
            sealed_value_optional: Some(ContentValue::VoiceMsg {
                path_option: Some(m.audio_files[i].clone()),
                file_name_option: None,
                mime_type: "audio/mp4".to_owned(),
                duration_sec_option: None,
            }),
        });
        assert(views[nv + i] == ContentView::Voice(m.audio_files@[i as int]@));
        i = i + 1;
    }
    if is_live {
        contents.push(Content {
            sealed_value_optional: Some(ContentValue::Location {
                title_option: None,
                address_option: None,
                lat_str: "".to_owned(),
                lon_str: "".to_owned(),
                duration_sec_option: None,
            }),
        });
    }
    proof {
        reveal_strlit("");
        assert(contents@.len() == views.len());
    }
    if es.len() == 0 && contents.len() == 0 {
        return None;
    }
    if m.reactions.len() > 0 {
        let mut joined = String::new();
        let mut k: usize = 0;
        while k < m.reactions.len()
            invariant
                k <= m.reactions@.len(),
                joined@ == reactions_joined(m.reactions@.take(k as int)),
            decreases m.reactions@.len() - k,
        {
            let r = &m.reactions[k];
            if k > 0 {
                joined.append(", ");
            }
            let reaction = fix_encoding(r.reaction.as_str());
            let actor = fix_encoding(r.actor.as_str());
            joined.append(reaction.as_str());
            joined.append(" ");
            joined.append(actor.as_str());
            proof {
                let t = m.reactions@.take(k + 1);
                assert(t.drop_last() =~= m.reactions@.take(k as int));
                assert(t.last() == *r);
                if k == 0 {
                    assert(joined@ =~= reactions_joined(t));
                } else {
                    assert(joined@ =~= reactions_joined(t));
                }
            }
            k = k + 1;
        }
        assert(m.reactions@.take(m.reactions@.len() as int) =~= m.reactions@);
        if es.len() > 0 {
            let Ghost(p) = push_plain(&mut es, Ghost(ps), "\n".to_owned());
            proof {
                ps = p;
            }
        }
        let mut bracketed = "[".to_owned();
        bracketed.append(joined.as_str());
        bracketed.append("]");
        let Ghost(p) = push_plain(&mut es, Ghost(ps), bracketed);
        proof {
            ps = p;
        }
    }
    assert(ps =~= all_parts(*m));
    let ghost es_in = es@;
    let text = normalize_rich_text(es);
    let typed = MessageTyped::Regular(MessageRegular {
        edit_timestamp_option: None,
        is_deleted: false,
        forward_from_name_option: None,
        reply_to_message_id_option: None,
        contents,
    });
    Some(Message::new(NO_INTERNAL_ID, None, m.timestamp_ms / 1000, UserId(from_id), text, typed))
}

} // verus!
