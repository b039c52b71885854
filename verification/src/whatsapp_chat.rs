//! Assembling one chat of a WhatsApp Android database from its message and call rows: who
//! sent each message, its text, the keys replies are resolved by, the chat's members, and the
//! final order of messages by time.
use vstd::prelude::*;
use std::collections::HashMap;
use crate::ids::{UserId, NO_INTERNAL_ID};
use crate::model::{PbUuid, Chat, ChatWithMessages, Message, MessageService, MessageServiceValue, MessageTyped, RichTextElement, User};
use crate::rich_text::RichText;
use crate::text::{opt_chars, str_eq};
use crate::entity_utils::pretty_name_spec;
use crate::whatsapp::{MessageRow, MessageType, RegularMessageError, CAPTION_COLUMN, TEXT_COLUMN, message_type_of,
    millis_to_secs, nonzero, opt_str_chars, parse_regular_message, readable, regular_outcome, zero_as_null};
use crate::whatsapp_system::{SystemMessageError, SystemRow, add_member, parse_system_message, system_outcome,
    system_readable};
use crate::tg_keeper::plain_of;
use crate::searchable::searchable_string_spec;

verus! {

/// Whether a chat is a one-on-one chat or a group.
#[derive(Clone, Copy, Debug, PartialEq, Eq, Structural)]
pub enum ChatKind {
    Personal,
    PrivateGroup,
}

/// A row of the messages of a chat, with what is read of it. User IDs and key IDs are those
/// of the JIDs and keys the row names.
#[derive(Debug)]
pub struct WaMessageRow {
    /// 1 for a message of mine, 0 otherwise.
    pub from_me: i32,
    /// The sender, where the row names one.
    pub sender_id: Option<i64>,
    pub msg_type: i32,
    pub system: SystemRow,
    pub regular: MessageRow,
    pub text_data: Option<String>,
    pub caption: Option<String>,
    pub key: String,
    pub key_id: i64,
    /// Key of the message a deleted message stood for.
    pub revoked_key: Option<String>,
    pub timestamp_ms: i64,
}

/// A row of the call log of a chat.
#[derive(Debug)]
pub struct WaCallRow {
    /// 1 for a call of mine, 0 otherwise.
    pub from_me: i32,
    pub sender_id: i64,
    /// ID of the call's key.
    pub call_key_id: i64,
    pub timestamp_ms: i64,
    pub duration: Option<i32>,
}

/// Why a chat could not be read.
#[derive(Debug)]
pub enum WaChatError {
    UnknownMessageType { code: i32 },
    System(SystemMessageError),
    Regular(RegularMessageError),
    /// A deleted message does not name the key it stood for.
    MissingRevokedKey,
}

/// A chat being assembled: its messages so far, its members, and the keys of its messages
/// with their source IDs, in the order they were recorded.
#[derive(Debug)]
pub struct WaChatBuilder {
    pub kind: ChatKind,
    pub chat_id: i64,
    pub myself_id: i64,
    pub messages: Vec<Message>,
    pub member_ids: Vec<i64>,
    pub keys: Vec<(String, i64)>,
}

/// Who a message is from: in a one-on-one chat, myself or the other person, whose user ID is
/// the chat's; in a group, the sender the row names, or myself where it names none.
pub open spec fn sender(kind: ChatKind, chat_id: i64, myself_id: i64, from_me: bool, sender_id: Option<i64>) -> i64 {
    match kind {
        ChatKind::Personal => if from_me {
            myself_id
        } else {
            chat_id
        },
        ChatKind::PrivateGroup => match sender_id {
            Some(id) => id,
            None => myself_id,
        },
    }
}

pub open spec fn row_sender(b: WaChatBuilder, row: WaMessageRow) -> i64 {
    sender(b.kind, b.chat_id, b.myself_id, row.from_me == 1, row.sender_id)
}

/// The text held by the column a message's text is in.
pub open spec fn column_text(col: Option<Seq<char>>, row: WaMessageRow) -> Option<Seq<char>> {
    match col {
        Some(c) => if c == TEXT_COLUMN@ {
            match row.text_data {
                Some(t) => Some(t@),
                None => None,
            }
        } else if c == CAPTION_COLUMN@ {
            match row.caption {
                Some(t) => Some(t@),
                None => None,
            }
        } else {
            None
        },
        None => None,
    }
}

/// Whether `m` is the message a row becomes, before messages are numbered.
pub open spec fn new_message(m: Message, row: WaMessageRow, from: i64, typed: MessageTyped, col: Option<Seq<char>>) -> bool {
    &&& m.internal_id == NO_INTERNAL_ID
    &&& m.source_id_option == Some(row.key_id)
    &&& m.timestamp == millis_to_secs(row.timestamp_ms)
    &&& m.from_id == from
    &&& m.typed == Some(typed)
    &&& match column_text(col, row) {
        Some(t) => if t.len() > 0 {
            m.text@.len() == 1 && plain_of(m.text@[0], t)
        } else {
            m.text@.len() == 0
        },
        None => m.text@.len() == 0,
    }
    &&& m.searchable_string@ == searchable_string_spec(m.text@, typed)
}

/// Whether the builder is the same but for its members.
pub open spec fn same_but_members(b0: WaChatBuilder, b1: WaChatBuilder) -> bool {
    &&& b1.kind == b0.kind && b1.chat_id == b0.chat_id && b1.myself_id == b0.myself_id
    &&& b1.messages == b0.messages
    &&& b1.keys == b0.keys
}

/// What recording a parsed row does: nothing for a row that is left out; a deleted message
/// must name the key it stood for; otherwise the row's key (and for a deleted message, the key
/// it stood for) is recorded with the row's key ID, and the message is added.
pub open spec fn parsed_recorded(
    r: Result<(), WaChatError>,
    b0: WaChatBuilder,
    b1: WaChatBuilder,
    row: WaMessageRow,
    t: MessageType,
    from: i64,
    parsed: Option<(MessageTyped, Option<&'static str>)>,
) -> bool {
    &&& b1.kind == b0.kind && b1.chat_id == b0.chat_id && b1.myself_id == b0.myself_id
    &&& match parsed {
        None => r is Ok && b1.messages == b0.messages && b1.keys == b0.keys,
        Some((typed, col)) => if t == MessageType::Deleted && row.revoked_key is None {
            r matches Err(WaChatError::MissingRevokedKey) && b1.messages == b0.messages && b1.keys == b0.keys
        } else {
            &&& r is Ok
            &&& b1.keys@ == if t == MessageType::Deleted {
                b0.keys@.push((row.key, row.key_id)).push((row.revoked_key.unwrap(), row.key_id))
            } else {
                b0.keys@.push((row.key, row.key_id))
            }
            &&& b1.messages@.len() == b0.messages@.len() + 1
            &&& b1.messages@.drop_last() == b0.messages@
            &&& new_message(b1.messages@.last(), row, from, typed, opt_str_chars(col))
        },
    }
}

/// What adding a message row does, as [`WaChatBuilder::add_message_row`] says.
pub open spec fn message_row_outcome(
    r: Result<(), WaChatError>,
    b0: WaChatBuilder,
    b1: WaChatBuilder,
    users0: Map<i64, User>,
    users1: Map<i64, User>,
    row: WaMessageRow,
) -> bool {
    let from = row_sender(b0, row);
    let ids = b0.member_ids@.to_set().insert(from);
    match message_type_of(row.msg_type) {
        None => {
            &&& r matches Err(WaChatError::UnknownMessageType { code }) && code == row.msg_type
            &&& users1 == users0 && b1.member_ids@.to_set() == ids && same_but_members(b0, b1)
        },
        Some(t) => if t == MessageType::VideoCall {
            r is Ok && users1 == users0 && b1.member_ids@.to_set() == ids && same_but_members(b0, b1)
        } else if t == MessageType::System || t == MessageType::MissedCall {
            exists|sr: Result<Option<(MessageTyped, Option<&'static str>)>, SystemMessageError>| {
                &&& system_outcome(sr, row.system, t, users0, users1, ids, b1.member_ids@.to_set(), b0.myself_id)
                &&& match sr {
                    Err(e) => r matches Err(WaChatError::System(e1)) && e1 == e && same_but_members(b0, b1),
                    Ok(parsed) => parsed_recorded(r, b0, b1, row, t, from, parsed),
                }
            }
        } else {
            &&& users1 == users0 && b1.member_ids@.to_set() == ids
            &&& exists|rr: Result<Option<(MessageTyped, Option<&'static str>)>, RegularMessageError>| {
                &&& regular_outcome(t, row.regular, b0.keys@, rr)
                &&& match rr {
                    Err(e) => r matches Err(WaChatError::Regular(e1)) && e1 == e && same_but_members(b0, b1),
                    Ok(parsed) => parsed_recorded(r, b0, b1, row, t, from, parsed),
                }
            }
        },
    }
}

/// Whether a message row can be read: mine or not, from a known sender, and readable as what
/// its type says it is.
pub open spec fn message_row_readable(b: WaChatBuilder, users: Map<i64, User>, row: WaMessageRow) -> bool {
    &&& row.from_me == 0 || row.from_me == 1
    &&& users.contains_key(b.myself_id)
    &&& users.contains_key(row_sender(b, row))
    &&& message_type_of(row.msg_type) matches Some(t) ==> {
        &&& (t == MessageType::System || t == MessageType::MissedCall) ==> system_readable(row.system, users, b.myself_id)
        &&& !(t == MessageType::System || t == MessageType::MissedCall || t == MessageType::VideoCall)
            ==> readable(t, row.regular)
    }
}

/// Whether a message is the call a call row becomes, before messages are numbered.
pub open spec fn call_message(m: Message, row: WaCallRow, from: i64) -> bool {
    &&& m.internal_id == NO_INTERNAL_ID
    &&& m.source_id_option == Some(row.call_key_id)
    &&& m.timestamp == millis_to_secs(row.timestamp_ms)
    &&& m.from_id == from
    &&& m.text@.len() == 0
    &&& m.typed matches Some(typed) && {
        &&& typed matches MessageTyped::Service(svc) && (svc.sealed_value_optional matches Some(
            MessageServiceValue::PhoneCall { duration_sec_option, discard_reason_option, members },
        ) && {
            &&& duration_sec_option == nonzero(row.duration)
            &&& discard_reason_option is None
            &&& members@.len() == 0
        })
        &&& m.searchable_string@ == searchable_string_spec(m.text@, typed)
    }
}

/// Who a call is from: myself, or the sender the row names.
pub open spec fn call_sender(row: WaCallRow, myself_id: i64) -> i64 {
    if row.from_me == 1 {
        myself_id
    } else {
        row.sender_id
    }
}

impl WaChatBuilder {
    /// The builder keeps its members distinct, myself among them.
    pub open spec fn wf(&self) -> bool {
        &&& self.member_ids@.no_duplicates()
        &&& self.member_ids@.contains(self.myself_id)
    }

    /// A chat with no messages yet, with myself as its only member.
    pub fn new(kind: ChatKind, chat_id: i64, myself_id: i64) -> (b: Self)
        ensures
            b.wf(),
            b.kind == kind && b.chat_id == chat_id && b.myself_id == myself_id,
            b.messages@.len() == 0,
            b.member_ids@ == seq![myself_id],
            b.keys@.len() == 0,
    {
        WaChatBuilder { kind, chat_id, myself_id, messages: Vec::new(), member_ids: vec![myself_id], keys: Vec::new() }
    }

    /// Adds a message row, as [`message_row_outcome`] says: its sender becomes a member; a row of
    /// an unknown type is an error; video calls are left for the call log; system messages and
    /// missed calls are read as [`parse_system_message`] reads them, other messages as
    /// [`parse_regular_message`] does, replies being resolved by the keys recorded so far.
    pub fn add_message_row(&mut self, users: &mut HashMap<i64, User>, row: WaMessageRow) -> (r: Result<(), WaChatError>)
        requires
            old(self).wf(),
            message_row_readable(*old(self), old(users)@, row),
        ensures
            final(self).wf(),
            message_row_outcome(r, *old(self), *final(self), old(users)@, final(users)@, row),
    {
        let ghost b0 = *self;
        let ghost g = row;
        let from = match self.kind {
            ChatKind::Personal => if row.from_me == 1 {
                self.myself_id
            } else {
                self.chat_id
            },
            ChatKind::PrivateGroup => match row.sender_id {
                Some(id) => id,
                None => self.myself_id,
            },
        };
        add_member(&mut self.member_ids, from);
        proof {
            assert(b0.member_ids@.to_set().contains(self.myself_id));
            assert(self.member_ids@.to_set().contains(self.myself_id));
        }
        let t = match MessageType::from_code(row.msg_type) {
            None => {
                return Err(WaChatError::UnknownMessageType { code: row.msg_type });
            },
            Some(t) => t,
        };
        if t == MessageType::VideoCall {
            return Ok(());
        }
        let WaMessageRow { system, regular, text_data, caption, key, key_id, revoked_key, timestamp_ms, .. } = row;
        let is_system = t == MessageType::System || t == MessageType::MissedCall;
        let ghost users_mid = users@;
        let ghost b_mid = *self;
        let ghost mut sys_res: Result<Option<(MessageTyped, Option<&'static str>)>, SystemMessageError> = Ok(None);
        let ghost mut reg_res: Result<Option<(MessageTyped, Option<&'static str>)>, RegularMessageError> = Ok(None);
        let mut res: Result<(), WaChatError> = Ok(());
        let mut parsed: Option<(MessageTyped, Option<&'static str>)> = None;
        if is_system {
            let sr = parse_system_message(system, t, users, self.myself_id, &mut self.member_ids);
            proof {
                sys_res = sr;
            }
            match sr {
                Err(e) => {
                    res = Err(WaChatError::System(e));
                },
                Ok(p) => {
                    parsed = p;
                },
            }
        } else {
            let rr = parse_regular_message(regular, t, &self.keys);
            proof {
                reg_res = rr;
            }
            match rr {
                Err(e) => {
                    res = Err(WaChatError::Regular(e));
                },
                Ok(p) => {
                    parsed = p;
                },
            }
        }
        let ghost parsed0 = parsed;
        let ghost b_parsed = *self;
        if res.is_ok() {
            match parsed {
                None => {},
                Some((typed, col)) => {
                    if t == MessageType::Deleted && revoked_key.is_none() {
                        res = Err(WaChatError::MissingRevokedKey);
                    } else {
                        let text_opt: Option<String> = match col {
                            None => None,
                            Some(c) => if str_eq(c, TEXT_COLUMN) {
                                text_data
                            } else if str_eq(c, CAPTION_COLUMN) {
                                caption
                            } else {
                                None
                            },
                        };
                        let text: Vec<RichTextElement> = match text_opt {
                            Some(s) => if s.unicode_len() == 0 {
                                Vec::new()
                            } else {
                                vec![RichText::make_plain(s)]
                            },
                            None => Vec::new(),
                        };
                        self.keys.push((key, key_id));
                        if t == MessageType::Deleted {
                            match revoked_key {
                                Some(k) => self.keys.push((k, key_id)),
                                None => {},
                            }
                        }
                        let msg = Message::new(NO_INTERNAL_ID, Some(key_id), timestamp_ms / 1000, UserId(from), text,
                            typed);
                        self.messages.push(msg);
                        proof {
                            assert(self.messages@.drop_last() =~= b_parsed.messages@);
                        }
                    }
                },
            }
        }
        proof {
            assert(from == row_sender(b0, g));
            assert(b_mid.member_ids@.to_set() == b0.member_ids@.to_set().insert(from));
            if is_system {
                assert(system_outcome(sys_res, g.system, t, users_mid, users@, b_mid.member_ids@.to_set(),
                    self.member_ids@.to_set(), b0.myself_id));
                assert(b_mid.member_ids@.to_set().contains(self.myself_id));
                assert(self.member_ids@.to_set().contains(self.myself_id));
                match sys_res {
                    Err(e) => {
                        assert(same_but_members(b0, *self));
                    },
                    Ok(p) => {
                        assert(p == parsed0);
                        assert(parsed_recorded(res, b0, *self, g, t, from, parsed0));
                    },
                }
            } else {
                assert(regular_outcome(t, g.regular, b0.keys@, reg_res));
                match reg_res {
                    Err(e) => {
                        assert(same_but_members(b0, *self));
                    },
                    Ok(p) => {
                        assert(p == parsed0);
                        assert(parsed_recorded(res, b0, *self, g, t, from, parsed0));
                    },
                }
            }
        }
        res
    }

    /// Adds a call from the call log: its caller becomes a member, and the call is added as a
    /// phone call with its duration where it is not zero.
    pub fn add_call_row(&mut self, users: &HashMap<i64, User>, row: WaCallRow)
        requires
            old(self).wf(),
            row.from_me == 0 || row.from_me == 1,
            users@.contains_key(call_sender(row, old(self).myself_id)),
        ensures
            final(self).wf(),
            final(self).kind == old(self).kind && final(self).chat_id == old(self).chat_id,
            final(self).myself_id == old(self).myself_id,
            final(self).keys == old(self).keys,
            final(self).member_ids@.to_set() == old(self).member_ids@.to_set().insert(call_sender(row, old(self).myself_id)),
            final(self).messages@.len() == old(self).messages@.len() + 1,
            final(self).messages@.drop_last() == old(self).messages@,
            call_message(final(self).messages@.last(), row, call_sender(row, old(self).myself_id)),
    {
        let ghost b0 = *self;
        let from = if row.from_me == 1 {
            self.myself_id
        } else {
            row.sender_id
        };
        add_member(&mut self.member_ids, from);
        proof {
            assert(b0.member_ids@.to_set().contains(self.myself_id));
            assert(self.member_ids@.to_set().contains(self.myself_id));
        }
        let typed = MessageTyped::Service(MessageService {
            sealed_value_optional: Some(MessageServiceValue::PhoneCall {
                duration_sec_option: zero_as_null(row.duration),
                discard_reason_option: None,
                members: Vec::new(),
            }),
        });
        let msg = Message::new(NO_INTERNAL_ID, Some(row.call_key_id), row.timestamp_ms / 1000, UserId(from), Vec::new(),
            typed);
        self.messages.push(msg);
        proof {
            assert(self.messages@.drop_last() =~= b0.messages@);
        }
    }

    /// The chat with its members and messages: the messages ordered by time, those sent at the
    /// same time keeping their order, and numbered from zero; the members in increasing order.
    /// The chat's other fields are kept.
    pub fn complete(self, chat: Chat) -> (r: ChatWithMessages)
        requires
            self.wf(),
            self.messages@.len() <= i64::MAX,
        ensures
            numbered(r.messages@, sorted_by_time(self.messages@)),
            increasing(r.chat.member_ids@),
            r.chat.member_ids@.to_set() == self.member_ids@.to_set(),
            r.chat.member_ids@.contains(self.myself_id),
            r.chat.msg_count == r.messages@.len() as i32,
            r.chat.ds_uuid == chat.ds_uuid && r.chat.id == chat.id && r.chat.name_option == chat.name_option,
            r.chat.source_type == chat.source_type && r.chat.tpe == chat.tpe,
            r.chat.img_path_option == chat.img_path_option && r.chat.main_chat_id == chat.main_chat_id,
    {
        let WaChatBuilder { messages, member_ids, .. } = self;
        let sorted = sort_by_time(messages);
        proof {
            lemma_sorted_len(self.messages@);
        }
        let numbered_messages = number_messages(sorted);
        let ids = sort_ids(member_ids);
        proof {
            assert(self.member_ids@.to_set().contains(self.myself_id));
            assert(ids@.to_set().contains(self.myself_id));
        }
        let n = numbered_messages.len();
        let Chat { ds_uuid, id, name_option, source_type, tpe, img_path_option, main_chat_id, .. } = chat;
        ChatWithMessages {
            chat: Chat {
                ds_uuid,
                id,
                name_option,
                source_type,
                tpe,
                img_path_option,
                member_ids: ids,
                msg_count: n as i32,
                main_chat_id,
            },
            messages: numbered_messages,
        }
    }
}

//
// Order of messages and members
//

/// `m` placed after the last message of `s` sent no later than it.
pub open spec fn insert_by_time(s: Seq<Message>, m: Message) -> Seq<Message>
    decreases s.len(),
{
    if s.len() == 0 {
        seq![m]
    } else if s.last().timestamp <= m.timestamp {
        s.push(m)
    } else {
        insert_by_time(s.drop_last(), m).push(s.last())
    }
}

/// Messages ordered by the time they were sent, those sent at the same time keeping their order.
pub open spec fn sorted_by_time(s: Seq<Message>) -> Seq<Message>
    decreases s.len(),
{
    if s.len() == 0 {
        s
    } else {
        insert_by_time(sorted_by_time(s.drop_last()), s.last())
    }
}

/// Whether messages are ordered by the time they were sent.
pub open spec fn time_ordered(s: Seq<Message>) -> bool {
    forall|i: int, j: int| 0 <= i < j < s.len() ==> s[i].timestamp <= s[j].timestamp
}

/// Whether `out` is `s` with each message numbered by its position.
pub open spec fn numbered(out: Seq<Message>, s: Seq<Message>) -> bool {
    &&& out.len() == s.len()
    &&& forall|i: int| 0 <= i < s.len() ==> #[trigger] out[i] == (Message { internal_id: i as i64, ..s[i] })
}

/// Whether numbers are in strictly increasing order.
pub open spec fn increasing(s: Seq<i64>) -> bool {
    forall|i: int, j: int| 0 <= i < j < s.len() ==> s[i] < s[j]
}

proof fn lemma_insert_len(s: Seq<Message>, m: Message)
    ensures
        insert_by_time(s, m).len() == s.len() + 1,
    decreases s.len(),
{
    if s.len() > 0 && s.last().timestamp > m.timestamp {
        lemma_insert_len(s.drop_last(), m);
    }
}

/// Ordering messages by time keeps their number.
pub proof fn lemma_sorted_len(s: Seq<Message>)
    ensures
        sorted_by_time(s).len() == s.len(),
    decreases s.len(),
{
    if s.len() > 0 {
        lemma_sorted_len(s.drop_last());
        lemma_insert_len(sorted_by_time(s.drop_last()), s.last());
    }
}

proof fn lemma_insert_at(s: Seq<Message>, m: Message, p: int)
    requires
        0 <= p <= s.len(),
        p > 0 ==> s[p - 1].timestamp <= m.timestamp,
        forall|k: int| p <= k < s.len() ==> s[k].timestamp > m.timestamp,
    ensures
        insert_by_time(s, m) == s.take(p).push(m) + s.skip(p),
    decreases s.len() - p,
{
    if p == s.len() {
        assert(s.take(p) =~= s);
        assert(s.skip(p) =~= Seq::<Message>::empty());
        assert(s.take(p).push(m) + s.skip(p) =~= s.push(m));
    } else {
        let t = s.drop_last();
        lemma_insert_at(t, m, p);
        assert(t.take(p) =~= s.take(p));
        assert(t.skip(p).push(s.last()) =~= s.skip(p));
        assert((t.take(p).push(m) + t.skip(p)).push(s.last()) =~= s.take(p).push(m) + s.skip(p));
    }
}


proof fn lemma_insert_bounded(t: Seq<Message>, m: Message, b: i64)
    requires
        forall|i: int| 0 <= i < t.len() ==> t[i].timestamp <= b,
        m.timestamp <= b,
    ensures
        forall|k: int| 0 <= k < insert_by_time(t, m).len() ==> #[trigger] insert_by_time(t, m)[k].timestamp <= b,
    decreases t.len(),
{
    lemma_insert_len(t, m);
    if t.len() > 0 && t.last().timestamp > m.timestamp {
        lemma_insert_bounded(t.drop_last(), m, b);
        lemma_insert_len(t.drop_last(), m);
    }
}

proof fn lemma_insert_ordered(t: Seq<Message>, m: Message)
    requires
        time_ordered(t),
    ensures
        time_ordered(insert_by_time(t, m)),
    decreases t.len(),
{
    if t.len() == 0 {
    } else if t.last().timestamp <= m.timestamp {
    } else {
        let u = t.drop_last();
        lemma_insert_ordered(u, m);
        lemma_insert_bounded(u, m, t.last().timestamp);
        lemma_insert_len(u, m);
        let v = insert_by_time(u, m);
        assert forall|i: int, j: int| 0 <= i < j < v.push(t.last()).len() implies
            v.push(t.last())[i].timestamp <= v.push(t.last())[j].timestamp by {
            if j == v.len() {
                assert(v[i].timestamp <= t.last().timestamp);
            }
        }
    }
}

/// Messages ordered by time are ordered by time.
pub proof fn law_sorted_by_time_is_ordered(s: Seq<Message>)
    ensures
        time_ordered(sorted_by_time(s)),
    decreases s.len(),
{
    if s.len() > 0 {
        law_sorted_by_time_is_ordered(s.drop_last());
        lemma_insert_ordered(sorted_by_time(s.drop_last()), s.last());
    }
}

proof fn lemma_insert_multiset(t: Seq<Message>, m: Message)
    ensures
        insert_by_time(t, m).to_multiset() == t.to_multiset().insert(m),
    decreases t.len(),
{
    broadcast use vstd::seq_lib::to_multiset_build;
    broadcast use vstd::multiset::group_multiset_axioms;
    if t.len() == 0 {
        assert(t.push(m) =~= seq![m]);
    } else if t.last().timestamp <= m.timestamp {
    } else {
        let u = t.drop_last();
        lemma_insert_multiset(u, m);
        assert(u.push(t.last()) =~= t);
        assert(insert_by_time(t, m).to_multiset() =~= t.to_multiset().insert(m));
    }
}

/// Ordering messages by time neither loses nor adds a message.
pub proof fn law_sorted_by_time_keeps_messages(s: Seq<Message>)
    ensures
        sorted_by_time(s).to_multiset() == s.to_multiset(),
    decreases s.len(),
{
    broadcast use vstd::seq_lib::to_multiset_build;
    if s.len() > 0 {
        law_sorted_by_time_keeps_messages(s.drop_last());
        lemma_insert_multiset(sorted_by_time(s.drop_last()), s.last());
        assert(s.drop_last().push(s.last()) =~= s);
    }
}

/// Messages already ordered by time keep their order.
pub proof fn law_ordered_messages_stay_in_place(s: Seq<Message>)
    requires
        time_ordered(s),
    ensures
        sorted_by_time(s) == s,
    decreases s.len(),
{
    if s.len() > 0 {
        let t = s.drop_last();
        assert(time_ordered(t));
        law_ordered_messages_stay_in_place(t);
        assert(t.push(s.last()) =~= s);
    }
}

/// Messages ordered by time, see [`sorted_by_time`].
pub fn sort_by_time(ms: Vec<Message>) -> (r: Vec<Message>)
    ensures
        r@ == sorted_by_time(ms@),
{
    let ghost orig = ms@;
    let n = ms.len();
    let mut out: Vec<Message> = Vec::new();
    let mut i: usize = 0;
    proof {
        assert(orig.take(0) =~= Seq::<Message>::empty());
    }
    for m in it: ms.into_iter()
        invariant
            i == it.index(),
            it.seq() == orig,
            n == orig.len(),
            out@ == sorted_by_time(orig.take(i as int)),
    {
        let mut p = out.len();
        while p > 0 && out[p - 1].timestamp > m.timestamp
            invariant
                p <= out@.len(),
                forall|k: int| p <= k < out@.len() ==> out@[k].timestamp > m.timestamp,
            decreases p,
        {
            p = p - 1;
        }
        proof {
            lemma_insert_at(out@, m, p as int);
            assert(orig.take(i + 1).drop_last() =~= orig.take(i as int));
            assert(m == orig[i as int]);
        }
        out.insert(p, m);
        proof {
            assert(out@ =~= insert_by_time(sorted_by_time(orig.take(i as int)), orig[i as int]));
        }
        i = i + 1;
    }
    proof {
        assert(orig.take(orig.len() as int) =~= orig);
    }
    out
}

/// Messages numbered by their position, see [`numbered`].
pub fn number_messages(ms: Vec<Message>) -> (r: Vec<Message>)
    requires
        ms@.len() <= i64::MAX,
    ensures
        numbered(r@, ms@),
{
    let ghost orig = ms@;
    let n = ms.len();
    let mut out: Vec<Message> = Vec::new();
    let mut i: usize = 0;
    for m in it: ms.into_iter()
        invariant
            i == it.index(),
            it.seq() == orig,
            n == orig.len(),
            orig.len() <= i64::MAX,
            out@.len() == i,
            forall|k: int| 0 <= k < i ==> #[trigger] out@[k] == (Message { internal_id: k as i64, ..orig[k] }),
    {
        proof {
            assert(m == orig[i as int]);
        }
        let Message { source_id_option, timestamp, from_id, text, searchable_string, typed, .. } = m;
        out.push(Message { internal_id: i as i64, source_id_option, timestamp, from_id, text, searchable_string, typed });
        i = i + 1;
    }
    out
}

/// Distinct numbers in increasing order.
pub fn sort_ids(ids: Vec<i64>) -> (r: Vec<i64>)
    requires
        ids@.no_duplicates(),
    ensures
        increasing(r@),
        r@.to_set() == ids@.to_set(),
{
    let ghost orig = ids@;
    let n = ids.len();
    let mut out: Vec<i64> = Vec::new();
    let mut i: usize = 0;
    proof {
        assert(orig.take(0).to_set() =~= out@.to_set());
    }
    for x in it: ids.into_iter()
        invariant
            i == it.index(),
            it.seq() == orig,
            n == orig.len(),
            orig.no_duplicates(),
            increasing(out@),
            out@.to_set() == orig.take(i as int).to_set(),
    {
        proof {
            assert(x == orig[i as int]);
            assert(!out@.contains(x)) by {
                if out@.contains(x) {
                    assert(orig.take(i as int).to_set().contains(x));
                    let k = choose|k: int| 0 <= k < i && orig.take(i as int)[k] == x;
                    assert(orig[k] == orig[i as int]);
                }
            }
        }
        let mut p = out.len();
        while p > 0 && out[p - 1] > x
            invariant
                p <= out@.len(),
                forall|k: int| p <= k < out@.len() ==> out@[k] > x,
            decreases p,
        {
            p = p - 1;
        }
        let ghost before = out@;
        out.insert(p, x);
        proof {
            assert(p > 0 ==> before[p - 1] != x) by {
                if p > 0 {
                    assert(before.contains(before[p - 1]));
                }
            }
            assert forall|a: int, b: int| 0 <= a < b < out@.len() implies out@[a] < out@[b] by {
                if a < p && b == p {
                    assert(before[a] <= before[p - 1]);
                } else if a == p && b > p {
                    assert(out@[b] == before[b - 1]);
                } else if a < p && b > p {
                    assert(out@[b] == before[b - 1]);
                } else if a > p {
                    assert(out@[a] == before[a - 1] && out@[b] == before[b - 1]);
                }
            }
            assert(orig.take(i + 1) =~= orig.take(i as int).push(x));
            orig.take(i as int).lemma_push_to_set_commute(x);
            assert(out@.to_set() =~= before.to_set().insert(x)) by {
                assert forall|y: i64| out@.contains(y) <==> (before.contains(y) || y == x) by {
                    if out@.contains(y) {
                        let k = choose|k: int| 0 <= k < out@.len() && out@[k] == y;
                        if k < p {
                            assert(before[k] == y);
                        } else if k > p {
                            assert(before[k - 1] == y);
                        }
                    }
                    if before.contains(y) {
                        let k = choose|k: int| 0 <= k < before.len() && before[k] == y;
                        if k < p {
                            assert(out@[k] == y);
                        } else {
                            assert(out@[k + 1] == y);
                        }
                    }
                    if y == x {
                        assert(out@[p as int] == x);
                    }
                }
            }
        }
        i = i + 1;
    }
    proof {
        assert(orig.take(orig.len() as int) =~= orig);
    }
    out
}

/// Whether a message is a regular one.
pub open spec fn is_regular(m: Message) -> bool {
    m.typed matches Some(MessageTyped::Regular(_))
}

/// Whether an assembled chat is kept: chats with no messages, or with service messages only
/// (such as block and number change notices), are left out.
pub fn worth_keeping(cwm: &ChatWithMessages) -> (r: bool)
    ensures
        r == (cwm.chat.msg_count > 0 && exists|i: int| 0 <= i < cwm.messages@.len() && is_regular(#[trigger] cwm.messages@[i])),
{
    if cwm.chat.msg_count <= 0 {
        return false;
    }
    let n = cwm.messages.len();
    let mut i: usize = 0;
    while i < n
        invariant
            n == cwm.messages@.len(),
            i <= n,
            cwm.chat.msg_count > 0,
            forall|k: int| 0 <= k < i ==> !is_regular(#[trigger] cwm.messages@[k]),
        decreases n - i,
    {
        match &cwm.messages[i].typed {
            Some(MessageTyped::Regular(_)) => {
                assert(is_regular(cwm.messages@[i as int]));
                return true;
            },
            _ => {},
        }
        i = i + 1;
    }
    false
}

//
// Chats of a database
//

/// The JID of WhatsApp's official account, whose chat is not loaded.
pub const WA_OFFICIAL_ACCT_JID: &'static str = "0@s.whatsapp.net";

/// Where the avatar of a chat is stored, relative to the dataset root.
pub open spec fn avatar_path(jid: Seq<char>) -> Seq<char> {
    "files/Avatars/"@ + jid + ".j"@
}

/// The chat a row of the chats table starts, with the builder for its message rows. Its ID is
/// the one derived from its JID; one with a subject is a group named by it, one without is a
/// one-on-one chat named after the other person, whose user ID is the chat's; its avatar is
/// stored under its JID. Members and the message count are left for the builder.
pub fn wa_chat_start(
    ds_uuid: &PbUuid,
    jid: &str,
    id: i64,
    subject: Option<String>,
    users: &HashMap<i64, User>,
    myself_id: i64,
    source_type: i32,
    personal_tpe: i32,
    group_tpe: i32,
) -> (r: (Chat, WaChatBuilder))
    requires
        subject is None ==> users@.contains_key(id),
    ensures
        r.0.ds_uuid == *ds_uuid,
        r.0.id == id,
        r.0.source_type == source_type,
        match subject {
            Some(s) => r.0.name_option == Some(s) && r.0.tpe == group_tpe && r.1.kind == ChatKind::PrivateGroup,
            None => opt_chars(r.0.name_option) == pretty_name_spec(users@[id]) && r.0.tpe == personal_tpe
                && r.1.kind == ChatKind::Personal,
        },
        r.0.img_path_option matches Some(p) && p@ == avatar_path(jid@),
        r.0.member_ids@.len() == 0,
        r.0.msg_count == 0,
        r.0.main_chat_id is None,
        r.1.wf(),
        r.1.chat_id == id && r.1.myself_id == myself_id,
        r.1.messages@.len() == 0 && r.1.keys@.len() == 0,
        r.1.member_ids@ == seq![myself_id],
{
    let (name_option, tpe, kind) = match subject {
        Some(s) => (Some(s), group_tpe, ChatKind::PrivateGroup),
        None => {
            let user = users.get(&id).unwrap();
            (user.pretty_name_option(), personal_tpe, ChatKind::Personal)
        },
    };
    let mut img = String::from_str("files/Avatars/");
    img.append(jid);
    img.append(".j");
    proof {
        reveal_strlit("files/Avatars/");
        reveal_strlit(".j");
        assert(img@ =~= avatar_path(jid@));
    }
    let chat = Chat {
        ds_uuid: ds_uuid.clone(),
        id,
        name_option,
        source_type,
        tpe,
        img_path_option: Some(img),
        member_ids: Vec::new(),
        msg_count: 0,
        main_chat_id: None,
    };
    (chat, WaChatBuilder::new(kind, id, myself_id))
}

/// Whether a chat of the database is loaded: not the official account's, and, once
/// assembled, with messages, at least one of them regular.
pub fn wa_chat_kept(jid: &str, msg_count: i32, has_regular: bool) -> (r: bool)
    ensures
        r == (jid@ != WA_OFFICIAL_ACCT_JID@ && msg_count > 0 && has_regular),
{
    !str_eq(jid, WA_OFFICIAL_ACCT_JID) && msg_count > 0 && has_regular
}

/// Whether an assembled chat of the given JID is loaded, see [`wa_chat_kept`].
pub open spec fn chat_kept(jid: Seq<char>, cwm: ChatWithMessages) -> bool {
    &&& jid != WA_OFFICIAL_ACCT_JID@
    &&& cwm.chat.msg_count > 0
    &&& exists|i: int| 0 <= i < cwm.messages@.len() && is_regular(#[trigger] cwm.messages@[i])
}

/// The assembled chats that are loaded, in order.
pub open spec fn kept_chats(s: Seq<(String, ChatWithMessages)>) -> Seq<ChatWithMessages>
    decreases s.len(),
{
    if s.len() == 0 {
        Seq::empty()
    } else {
        let p = kept_chats(s.drop_last());
        if chat_kept(s.last().0@, s.last().1) {
            p.push(s.last().1)
        } else {
            p
        }
    }
}

/// The assembled chats, each with its JID, that are loaded, see [`chat_kept`]: each of them
/// has messages, at least one of them regular.
pub fn keep_chats(chats: Vec<(String, ChatWithMessages)>) -> (r: Vec<ChatWithMessages>)
    ensures
        r@ == kept_chats(chats@),
        forall|k: int| 0 <= k < r@.len() ==> (#[trigger] r@[k]).chat.msg_count > 0
            && exists|i: int| 0 <= i < r@[k].messages@.len() && is_regular(#[trigger] r@[k].messages@[i]),
{
    let ghost orig = chats@;
    let n = chats.len();
    let mut out: Vec<ChatWithMessages> = Vec::new();
    let mut i: usize = 0;
    assert(orig.take(0) =~= Seq::<(String, ChatWithMessages)>::empty());
    for x in it: chats.into_iter()
        invariant
            i == it.index(),
            it.seq() == orig,
            n == orig.len(),
            out@ == kept_chats(orig.take(i as int)),
            forall|k: int| 0 <= k < out@.len() ==> (#[trigger] out@[k]).chat.msg_count > 0
                && exists|j: int| 0 <= j < out@[k].messages@.len() && is_regular(#[trigger] out@[k].messages@[j]),
    {
        proof {
            assert(x == orig[i as int]);
            assert(orig.take(i + 1).drop_last() =~= orig.take(i as int));
        }
        let (jid, cwm) = x;
        let keep = wa_chat_kept(jid.as_str(), cwm.chat.msg_count, worth_keeping(&cwm));
        if keep {
            out.push(cwm);
        }
        i = i + 1;
    }
    assert(orig.take(n as int) =~= orig);
    out
}

} // verus!
