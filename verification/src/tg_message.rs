//! What a raw message of a tg-keeper database becomes: a regular message with its text, the
//! name it was forwarded from, the message it replies to and its attached content; a service
//! message; or nothing.
use vstd::prelude::*;
use std::collections::HashMap;
use crate::model::{Content, Message, MessageRegular, MessageService, MessageServiceValue, MessageTyped,
    RichTextElement, User};
use crate::tg_keeper::{LoaderConfig, MessageEntity, Peer, RawMessageHeader, RawPeerId, USER_ID_SHIFT,
    entities_fit, message_author, parse_text, peer_raw_id, text_parsed};
use crate::tg_service::{MessageAction, PhoneCallDiscardReason, ReplyHeader, ServiceError, is_skipped, parse_service_message,
    parsed_as, resolve_pretty_name, resolved_name};
use crate::tg_media::{MediaError, MediaFile, TgMedia, media_content, media_error, media_path, media_skipped, parse_media};
use crate::searchable::searchable_string_spec;
use crate::message_utils::typed_well_formed;
use crate::text::opt_chars;

verus! {

/// Where a forwarded message comes from: a name, or a peer.
#[derive(Debug)]
pub struct ForwardHeader {
    pub from_name: Option<String>,
    pub from_id: Option<Peer>,
}

/// A raw message, with what the loader reads of it.
#[derive(Debug)]
#[allow(inconsistent_fields)]
pub enum TgMessage {
    Message {
        id: i32,
        date: i32,
        from_id: Option<Peer>,
        peer_id: Peer,
        out: bool,
        fwd_from: Option<ForwardHeader>,
        reply_to: Option<ReplyHeader>,
        message: String,
        entities: Option<Vec<MessageEntity>>,
        media: Option<TgMedia>,
        edit_hide: bool,
        edit_date: Option<i32>,
    },
    Service {
        id: i32,
        date: i32,
        from_id: Option<Peer>,
        peer_id: Peer,
        out: bool,
        action: MessageAction,
        reply_to: Option<ReplyHeader>,
    },
    Empty { id: i32, peer_id: Option<Peer> },
}

/// Why a raw message could not be turned into a message.
#[derive(Debug)]
pub enum TgMessageError {
    Media(MediaError),
    Service(ServiceError),
}

/// What a raw message tells of where it belongs and who sent it.
pub open spec fn header_of(m: TgMessage) -> RawMessageHeader {
    match m {
        TgMessage::Message { from_id, peer_id, out, .. } => RawMessageHeader::Message { from_id, peer_id, out },
        TgMessage::Service { from_id, peer_id, out, .. } => RawMessageHeader::Service { from_id, peer_id, out },
        TgMessage::Empty { peer_id, .. } => RawMessageHeader::Empty { peer_id },
    }
}

/// A user ID, shifted back where it is a shifted one.
pub open spec fn normalized_user(raw: i64) -> int {
    if raw >= USER_ID_SHIFT {
        raw - USER_ID_SHIFT
    } else {
        raw as int
    }
}

/// The entities of a message; none where it has no list.
pub open spec fn entity_list(es: Option<Vec<MessageEntity>>) -> Seq<MessageEntity> {
    match es {
        Some(v) => v@,
        None => Seq::empty(),
    }
}

/// Whether a raw message can be read: the entities of a message fit its text, and a call was
/// not ended with a reason that does not exist for private calls.
pub open spec fn message_readable(m: TgMessage) -> bool {
    match m {
        TgMessage::Message { message, entities, .. } =>
            message@.len() > 0 && entity_list(entities).len() > 0 ==> entities_fit(message@, entity_list(entities), 0, 0),
        TgMessage::Service { action, .. } =>
            !(action matches MessageAction::PhoneCall { reason: Some(PhoneCallDiscardReason::AllowGroupCall), .. }),
        TgMessage::Empty { .. } => true,
    }
}

/// Name a message was forwarded from: the name given, or else the name of the peer given.
pub open spec fn forward_name(fwd: Option<ForwardHeader>, users: Map<i64, User>) -> Option<Seq<char>> {
    match fwd {
        None => None,
        Some(h) => match h.from_name {
            Some(n) => Some(n@),
            None => match h.from_id {
                Some(p) => Some(resolved_name(users, peer_raw_id(p))),
                None => None,
            },
        },
    }
}

/// ID of the message replied to, if the reply names one.
pub open spec fn reply_message_id(reply_to: Option<ReplyHeader>) -> Option<i64> {
    match reply_to {
        Some(ReplyHeader::Header { reply_to_msg_id: Some(id) }) => Some(id as i64),
        _ => None,
    }
}

/// Time of the last edit, unless the edit is hidden.
pub open spec fn edit_timestamp(edit_hide: bool, edit_date: Option<i32>) -> Option<i64> {
    if edit_hide {
        None
    } else {
        match edit_date {
            Some(d) => Some(d as i64),
            None => None,
        }
    }
}

/// The error attached media gives, if any.
pub open spec fn media_failure(media: Option<TgMedia>) -> Option<MediaError> {
    match media {
        Some(mm) => media_error(mm),
        None => None,
    }
}

/// The contents of a message with the given media: none for no media or skipped media,
/// otherwise the one content the media becomes.
pub open spec fn contents_made(
    cs: Seq<Content>,
    media: Option<TgMedia>,
    config: LoaderConfig,
    file: Option<MediaFile>,
    thumb: Option<String>,
) -> bool {
    match media {
        None => cs.len() == 0,
        Some(mm) => if media_skipped(mm) {
            cs.len() == 0
        } else {
            cs.len() == 1 && (cs[0].sealed_value_optional matches Some(c) && media_content(mm, config, file, thumb, c))
        },
    }
}

/// Whether a message has the given ID (also as its source ID), time and author, and its
/// searchable string made of its text and kind-specific part.
pub open spec fn stamped(msg: Message, id: i32, date: i32, author: i64) -> bool {
    &&& msg.internal_id == id as i64
    &&& msg.source_id_option == Some(id as i64)
    &&& msg.timestamp == date as i64
    &&& msg.from_id == normalized_user(author)
    &&& msg.typed matches Some(t) && msg.searchable_string@ == searchable_string_spec(msg.text@, t)
}

/// What a service message gives, as [`parse_service_message`] says.
pub open spec fn service_made(
    r: Result<Option<Message>, TgMessageError>,
    id: i32,
    date: i32,
    author: i64,
    action: MessageAction,
    reply_to: Option<ReplyHeader>,
    from_id: Option<Peer>,
    path: Option<String>,
    users: Map<i64, User>,
) -> bool {
    if is_skipped(action) {
        r matches Ok(None)
    } else if action is PinMessage {
        match reply_to {
            None => r matches Err(TgMessageError::Service(ServiceError::PinWithoutReply)),
            Some(ReplyHeader::StoryHeader) => r matches Err(TgMessageError::Service(ServiceError::PinOfStoryReply)),
            Some(ReplyHeader::Header { reply_to_msg_id: None }) =>
                r matches Err(TgMessageError::Service(ServiceError::PinWithoutMessageId)),
            Some(ReplyHeader::Header { reply_to_msg_id: Some(mid) }) => r matches Ok(Some(msg)) && {
                &&& stamped(msg, id, date, author)
                &&& msg.typed == Some(MessageTyped::Service(MessageService {
                    sealed_value_optional: Some(MessageServiceValue::PinMessage { message_id: mid as i64 }),
                }))
                &&& msg.text@.len() == 0
            },
        }
    } else {
        r matches Ok(Some(msg)) && {
            &&& stamped(msg, id, date, author)
            &&& msg.typed matches Some(MessageTyped::Service(svc))
                && parsed_as(Ok::<Option<(MessageService, Vec<RichTextElement>)>, ServiceError>(Some((svc, msg.text))),
                    action, from_id, path, users)
        }
    }
}

/// What a raw message gives: nothing for an empty one; for a service message, see
/// [`service_made`]; for a regular one, an error where its media gives one, and otherwise the
/// message with its parsed text, edit time, forward name, replied message and contents.
pub open spec fn message_outcome(
    r: Result<Option<Message>, TgMessageError>,
    m: TgMessage,
    config: LoaderConfig,
    file: Option<MediaFile>,
    thumb: Option<String>,
    users: Map<i64, User>,
    myself: i64,
) -> bool {
    let author = message_author(header_of(m), myself);
    match m {
        TgMessage::Empty { .. } => r matches Ok(None),
        TgMessage::Service { id, date, from_id, action, reply_to, .. } =>
            service_made(r, id, date, author, action, reply_to, from_id, media_path(file), users),
        TgMessage::Message { id, date, fwd_from, reply_to, message, entities, media, edit_hide, edit_date, .. } =>
            match media_failure(media) {
                Some(e) => r matches Err(TgMessageError::Media(me)) && me == e,
                None => r matches Ok(Some(msg)) && {
                    &&& stamped(msg, id, date, author)
                    &&& text_parsed(message@, entity_list(entities), msg.text@)
                    &&& msg.typed matches Some(MessageTyped::Regular(mr)) && {
                        &&& mr.edit_timestamp_option == edit_timestamp(edit_hide, edit_date)
                        &&& !mr.is_deleted
                        &&& opt_chars(mr.forward_from_name_option) == forward_name(fwd_from, users)
                        &&& mr.reply_to_message_id_option == reply_message_id(reply_to)
                        &&& contents_made(mr.contents@, media, config, file, thumb)
                    }
                },
            },
    }
}

impl TgMessage {
    /// What the message tells of where it belongs and who sent it.
    pub fn header(&self) -> (r: RawMessageHeader)
        ensures
            r == header_of(*self),
    {
        match self {
            TgMessage::Message { from_id, peer_id, out, .. } =>
                RawMessageHeader::Message { from_id: *from_id, peer_id: *peer_id, out: *out },
            TgMessage::Service { from_id, peer_id, out, .. } =>
                RawMessageHeader::Service { from_id: *from_id, peer_id: *peer_id, out: *out },
            TgMessage::Empty { peer_id, .. } => RawMessageHeader::Empty { peer_id: *peer_id },
        }
    }
}

fn forward_from_name(fwd: Option<ForwardHeader>, users: &HashMap<i64, User>) -> (r: Option<String>)
    ensures
        opt_chars(r) == forward_name(fwd, users@),
{
    match fwd {
        None => None,
        Some(h) => match h.from_name {
            Some(n) => Some(n),
            None => match h.from_id {
                Some(p) => Some(resolve_pretty_name(users, p.raw_id())),
                None => None,
            },
        },
    }
}

fn reply_to_message_id(reply_to: &Option<ReplyHeader>) -> (r: Option<i64>)
    ensures
        r == reply_message_id(*reply_to),
{
    match reply_to {
        Some(ReplyHeader::Header { reply_to_msg_id: Some(id) }) => Some(*id as i64),
        _ => None,
    }
}

fn entities_or_none(es: Option<Vec<MessageEntity>>) -> (r: Vec<MessageEntity>)
    ensures
        r@ == entity_list(es),
{
    match es {
        Some(v) => v,
        None => Vec::new(),
    }
}

/// What a raw message becomes, as [`message_outcome`] says. `file` is the downloaded media
/// file of the message, if any, and `thumb` the path of its thumbnail; `myself_raw_id` is the
/// raw ID of the owner of the database.
pub fn parse_message(
    config: &LoaderConfig,
    raw_message: TgMessage,
    file: Option<MediaFile>,
    thumb: Option<String>,
    users: &HashMap<i64, User>,
    myself_raw_id: RawPeerId,
) -> (r: Result<Option<Message>, TgMessageError>)
    requires
        message_readable(raw_message),
    ensures
        message_outcome(r, raw_message, *config, file, thumb, users@, myself_raw_id.0),
{
    let header = raw_message.header();
    let from_id = header.author_raw_id(myself_raw_id).normalize_user_id();
    match raw_message {
        TgMessage::Message { id, date, fwd_from, reply_to, message, entities, media, edit_hide, edit_date, .. } => {
            let forward_from_name_option = forward_from_name(fwd_from, users);
            let reply_to_message_id_option = reply_to_message_id(&reply_to);
            let entity_vec = entities_or_none(entities);
            let text = parse_text(message.as_str(), entity_vec.as_slice());
            let ghost media0 = media;
            let contents: Vec<Content> = match media {
                None => Vec::new(),
                Some(mm) => match parse_media(config, mm, file, thumb) {
                    Err(e) => {
                        return Err(TgMessageError::Media(e));
                    },
                    Ok(None) => Vec::new(),
                    Ok(Some(c)) => {
                        let mut v: Vec<Content> = Vec::new();
                        v.push(c);
                        v
                    },
                },
            };
            proof {
                assert(contents_made(contents@, media0, *config, file, thumb));
            }
            let edit_timestamp_option = if edit_hide {
                None
            } else {
                match edit_date {
                    Some(d) => Some(d as i64),
                    None => None,
                }
            };
            let typed = MessageTyped::Regular(MessageRegular {
                edit_timestamp_option,
                is_deleted: false,
                forward_from_name_option,
                reply_to_message_id_option,
                contents,
            });
            Ok(Some(Message::new(id as i64, Some(id as i64), date as i64, from_id, text, typed)))
        },
        TgMessage::Service { id, date, from_id: service_from_id, action, reply_to, .. } => {
            let path = match file {
                Some(f) => Some(f.rel_path),
                None => None,
            };
            let sr = parse_service_message(&action, &reply_to, service_from_id, path, users);
            match sr {
                Err(e) => Err(TgMessageError::Service(e)),
                Ok(None) => Ok(None),
                Ok(Some((svc, text))) => {
                    Ok(Some(Message::new(id as i64, Some(id as i64), date as i64, from_id, text,
                        MessageTyped::Service(svc))))
                },
            }
        },
        TgMessage::Empty { .. } => Ok(None),
    }
}

} // verus!
