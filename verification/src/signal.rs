//! Messages of a private Signal conversation, from the rows of its desktop database: who sent
//! each one, its text, whether it is a call or a profile change, and which earlier message it
//! quotes.
use vstd::prelude::*;
use crate::ids::UserId;
use crate::model::{Chat, ChatWithMessages, PbUuid, User, Content, Message, MessageRegular, MessageService, MessageServiceValue, MessageTyped, RichTextElement};
use crate::rich_text::RichText;
use crate::text::str_eq;
use crate::loaders::{uuid_position, uuid_to_i64_pos};
use crate::ext::{parse_uuid_bytes, parsed_uuid};
use crate::whatsapp::millis_to_secs;
use crate::message_utils::contents_present;
use crate::searchable::searchable_string_spec;
use crate::tg_keeper::plain_of;

verus! {

/// The calls-history row of a call message.
#[derive(Debug)]
pub struct SignalCall {
    pub direction: String,
    pub status: String,
}

/// The profile change a profile-change message records.
#[derive(Debug)]
pub struct ProfileChange {
    pub change_type: String,
    pub old_name: String,
    pub new_name: String,
}

/// A row of the messages table, with what its JSON holds. `attachments` are the contents of
/// its decrypted attachments.
#[derive(Debug)]
pub struct SignalRow {
    pub uuid: [u8; 16],
    pub direction: String,
    pub body: Option<String>,
    /// Time the message was sent, in milliseconds.
    pub timestamp_ms: i64,
    pub is_erased: i32,
    pub edit_timestamp_ms: Option<i64>,
    /// Sending time, in milliseconds, of the message quoted.
    pub quote_id: Option<i64>,
    pub call: Option<SignalCall>,
    pub profile_change: Option<ProfileChange>,
    pub attachments: Vec<Content>,
}

/// Why a conversation could not be read.
#[derive(Clone, Copy, Debug, PartialEq, Eq, Structural)]
pub enum SignalError {
    CallNotFound,
    UnknownCallDirection,
    UnknownCallStatus,
    MissingProfileChange,
    UnknownProfileChange,
    UnknownDirection,
}

/// What a row is, by its direction.
#[derive(Clone, Copy, Debug, PartialEq, Eq, Structural)]
pub enum RowKind {
    Incoming,
    Outgoing,
    Call,
    ProfileChange,
    /// Key and verification changes, which are not shown.
    Ignored,
    Unknown,
}

pub open spec fn row_kind(d: Seq<char>) -> RowKind {
    if d == "incoming"@ {
        RowKind::Incoming
    } else if d == "outgoing"@ {
        RowKind::Outgoing
    } else if d == "call-history"@ {
        RowKind::Call
    } else if d == "profile-change"@ {
        RowKind::ProfileChange
    } else if d == "keychange"@ || d == "verified-change"@ {
        RowKind::Ignored
    } else {
        RowKind::Unknown
    }
}

/// A row's direction decides what it is, each kind from its own direction only: incoming and
/// outgoing messages, calls, profile changes, key and verification changes (which are not
/// shown), and nothing else.
pub proof fn law_row_kinds(d: Seq<char>)
    ensures
        row_kind(d) == RowKind::Incoming <==> d == "incoming"@,
        row_kind(d) == RowKind::Outgoing <==> d == "outgoing"@,
        row_kind(d) == RowKind::Call <==> d == "call-history"@,
        row_kind(d) == RowKind::ProfileChange <==> d == "profile-change"@,
        row_kind(d) == RowKind::Ignored <==> (d == "keychange"@ || d == "verified-change"@),
{
    reveal_strlit("incoming");
    reveal_strlit("outgoing");
    reveal_strlit("call-history");
    reveal_strlit("profile-change");
    reveal_strlit("keychange");
    reveal_strlit("verified-change");
    assert("incoming"@[0] != "outgoing"@[0]);
    assert("call-history"@.len() != "incoming"@.len() && "call-history"@.len() != "outgoing"@.len());
    assert("profile-change"@.len() != "incoming"@.len() && "profile-change"@.len() != "call-history"@.len());
    assert("keychange"@.len() != "incoming"@.len() && "keychange"@.len() != "call-history"@.len());
    assert("keychange"@.len() != "profile-change"@.len());
    assert("verified-change"@.len() != "incoming"@.len() && "verified-change"@.len() != "call-history"@.len());
    assert("verified-change"@.len() != "profile-change"@.len() && "verified-change"@.len() != "keychange"@.len());
}

/// Why a call ended, by its status: accepted calls were hung up.
pub open spec fn call_reason(status: Seq<char>) -> Option<Seq<char>> {
    if status == "Accepted"@ {
        Some("hangup"@)
    } else if status == "Declined"@ {
        Some("declined"@)
    } else if status == "Missed"@ {
        Some("missed"@)
    } else {
        None
    }
}

/// The discard reason of a call follows its status, each reason from its own status only: an
/// accepted call was hung up, a declined call was declined, a missed call was missed; other
/// statuses give none.
pub proof fn law_call_reasons(status: Seq<char>)
    ensures
        call_reason(status) == Some("hangup"@) <==> status == "Accepted"@,
        call_reason(status) == Some("declined"@) <==> status == "Declined"@,
        call_reason(status) == Some("missed"@) <==> status == "Missed"@,
        call_reason(status) is Some <==> (status == "Accepted"@ || status == "Declined"@ || status == "Missed"@),
{
    reveal_strlit("hangup");
    reveal_strlit("declined");
    reveal_strlit("missed");
    assert("hangup"@[0] != "missed"@[0]);
    assert("hangup"@.len() != "declined"@.len());
    assert("missed"@.len() != "declined"@.len());
    reveal_strlit("Accepted");
    reveal_strlit("Declined");
    reveal_strlit("Missed");
    assert("Accepted"@[0] != "Declined"@[0]);
    assert("Accepted"@.len() != "Missed"@.len());
    assert("Declined"@.len() != "Missed"@.len());
}

/// The error a row gives, if any.
pub open spec fn row_error(row: SignalRow) -> Option<SignalError> {
    match row_kind(row.direction@) {
        RowKind::Call => match row.call {
            None => Some(SignalError::CallNotFound),
            Some(c) => if c.direction@ != "Incoming"@ && c.direction@ != "Outgoing"@ {
                Some(SignalError::UnknownCallDirection)
            } else if call_reason(c.status@) is None {
                Some(SignalError::UnknownCallStatus)
            } else {
                None
            },
        },
        RowKind::ProfileChange => match row.profile_change {
            None => Some(SignalError::MissingProfileChange),
            Some(p) => if p.change_type@ != "name"@ {
                Some(SignalError::UnknownProfileChange)
            } else {
                None
            },
        },
        RowKind::Unknown => Some(SignalError::UnknownDirection),
        _ => None,
    }
}

/// Whether a row is left out.
pub open spec fn row_skipped(row: SignalRow) -> bool {
    row_kind(row.direction@) == RowKind::Ignored
}

/// The error of the first row that gives one.
pub open spec fn first_error(rows: Seq<SignalRow>) -> Option<SignalError>
    decreases rows.len(),
{
    if rows.len() == 0 {
        None
    } else {
        match first_error(rows.drop_last()) {
            Some(e) => Some(e),
            None => row_error(rows.last()),
        }
    }
}

/// The rows that become messages, in order.
pub open spec fn kept_rows(rows: Seq<SignalRow>) -> Seq<SignalRow>
    decreases rows.len(),
{
    if rows.len() == 0 {
        Seq::empty()
    } else if row_skipped(rows.last()) {
        kept_rows(rows.drop_last())
    } else {
        kept_rows(rows.drop_last()).push(rows.last())
    }
}

/// Sending time (in milliseconds) and source ID of the message a row becomes.
pub open spec fn row_stamp(row: SignalRow) -> (i64, i64) {
    (row.timestamp_ms, uuid_position(row.uuid@) as i64)
}

pub open spec fn stamps_of(rows: Seq<SignalRow>) -> Seq<(i64, i64)> {
    rows.map_values(|r: SignalRow| row_stamp(r))
}

/// Source ID of the latest earlier message sent at `ts`, looking back only as long as the
/// messages were sent at `ts` or later.
pub open spec fn reply_lookup(stamps: Seq<(i64, i64)>, ts: i64) -> Option<i64>
    decreases stamps.len(),
{
    if stamps.len() == 0 {
        None
    } else if stamps.last().0 < ts {
        None
    } else if stamps.last().0 == ts {
        Some(stamps.last().1)
    } else {
        reply_lookup(stamps.drop_last(), ts)
    }
}

/// The author of a row's message: the other person for incoming messages, incoming calls and
/// profile changes, myself otherwise.
pub open spec fn row_author(row: SignalRow, user_id: i64, myself_id: i64) -> i64 {
    match row_kind(row.direction@) {
        RowKind::Incoming => user_id,
        RowKind::ProfileChange => user_id,
        RowKind::Call => match row.call {
            Some(c) => if c.direction@ == "Incoming"@ {
                user_id
            } else {
                myself_id
            },
            None => myself_id,
        },
        _ => myself_id,
    }
}

/// Who sent a row's message: the other person for incoming messages and calls, myself for
/// outgoing ones.
pub proof fn law_row_authors(row: SignalRow, user_id: i64, myself_id: i64)
    ensures
        row.direction@ == "incoming"@ ==> row_author(row, user_id, myself_id) == user_id,
        row.direction@ == "outgoing"@ ==> row_author(row, user_id, myself_id) == myself_id,
        row.direction@ == "call-history"@ ==> (row.call matches Some(c) && c.direction@ == "Incoming"@
            ==> row_author(row, user_id, myself_id) == user_id),
        row.direction@ == "call-history"@ ==> (row.call matches Some(c) && c.direction@ == "Outgoing"@
            ==> row_author(row, user_id, myself_id) == myself_id),
{
    reveal_strlit("incoming");
    reveal_strlit("outgoing");
    reveal_strlit("call-history");
    reveal_strlit("Incoming");
    reveal_strlit("Outgoing");
    assert("incoming"@[0] != "outgoing"@[0]);
    assert("incoming"@.len() != "call-history"@.len());
    assert("outgoing"@.len() != "call-history"@.len());
    assert("Incoming"@[0] != "Outgoing"@[0]);
}

/// The text of a row's message: the name change for profile changes, the body otherwise.
pub open spec fn row_text(row: SignalRow) -> Option<Seq<char>> {
    if row_kind(row.direction@) == RowKind::ProfileChange {
        match row.profile_change {
            Some(p) => Some(p.old_name@ + " changed name to "@ + p.new_name@),
            None => None,
        }
    } else {
        match row.body {
            Some(b) => Some(b@),
            None => None,
        }
    }
}

/// Whether `typed` is what a row's message is, given the messages before it.
pub open spec fn row_typed(row: SignalRow, typed: MessageTyped, earlier: Seq<(i64, i64)>) -> bool {
    match row_kind(row.direction@) {
        RowKind::Call => typed matches MessageTyped::Service(svc) && match svc.sealed_value_optional {
            Some(MessageServiceValue::PhoneCall { duration_sec_option, discard_reason_option, members }) => {
                &&& duration_sec_option is None
                &&& discard_reason_option matches Some(d) && Some(d@) == call_reason(row.call.unwrap().status@)
                &&& members@.len() == 0
            },
            _ => false,
        },
        RowKind::ProfileChange => typed == MessageTyped::Service(
            MessageService { sealed_value_optional: Some(MessageServiceValue::Notice) },
        ),
        _ => typed matches MessageTyped::Regular(mr) && {
            &&& mr.edit_timestamp_option == match row.edit_timestamp_ms {
                Some(e) => Some(millis_to_secs(e) as i64),
                None => None,
            }
            &&& mr.is_deleted == (row.is_erased == 1)
            &&& mr.forward_from_name_option is None
            &&& mr.reply_to_message_id_option == match row.quote_id {
                Some(q) => reply_lookup(earlier, q),
                None => None,
            }
            &&& mr.contents == row.attachments
        },
    }
}

/// Whether `m` is the message that a row becomes at position `i`, given the messages before it.
pub open spec fn message_of_row(
    row: SignalRow,
    m: Message,
    i: int,
    earlier: Seq<(i64, i64)>,
    user_id: i64,
    myself_id: i64,
) -> bool {
    &&& m.internal_id == i
    &&& m.source_id_option == Some(uuid_position(row.uuid@) as i64)
    &&& m.timestamp == millis_to_secs(row.timestamp_ms)
    &&& m.from_id == row_author(row, user_id, myself_id)
    &&& match row_text(row) {
        Some(t) => m.text@.len() == 1 && plain_of(m.text@[0], t),
        None => m.text@.len() == 0,
    }
    &&& m.typed matches Some(t) && row_typed(row, t, earlier)
        && m.searchable_string@ == searchable_string_spec(m.text@, t)
}

/// Whether the attachments of every row are present contents.
pub open spec fn rows_readable(rows: Seq<SignalRow>) -> bool {
    forall|i: int| 0 <= i < rows.len() ==> contents_present(#[trigger] rows[i].attachments@)
}

/// Source ID of the latest earlier message sent at `ts`, see [`reply_lookup`].
pub fn find_reply(stamps: &Vec<(i64, i64)>, ts: i64) -> (r: Option<i64>)
    ensures
        r == reply_lookup(stamps@, ts),
{
    let mut i = stamps.len();
    assert(stamps@.take(i as int) =~= stamps@);
    while i > 0
        invariant
            i <= stamps@.len(),
            reply_lookup(stamps@, ts) == reply_lookup(stamps@.take(i as int), ts),
        decreases i,
    {
        let (t, id) = stamps[i - 1];
        assert(stamps@.take(i as int).last() == stamps@[i - 1]);
        if t < ts {
            return None;
        }
        if t == ts {
            return Some(id);
        }
        assert(stamps@.take(i as int).drop_last() =~= stamps@.take(i - 1));
        i = i - 1;
    }
    None
}

/// Members of a private conversation: myself, and the other person if that is someone else.
pub fn conversation_member_ids(user_id: UserId, myself_id: UserId) -> (r: Vec<i64>)
    ensures
        r@ == if user_id.0 == myself_id.0 {
            seq![myself_id.0]
        } else {
            seq![myself_id.0, user_id.0]
        },
{
    if user_id.0 == myself_id.0 {
        vec![myself_id.0]
    } else {
        vec![myself_id.0, user_id.0]
    }
}

fn call_reason_of(status: &str) -> (r: Option<String>)
    ensures
        opt_view(r) == call_reason(status@),
{
    if str_eq(status, "Accepted") {
        Some("hangup".to_owned())
    } else if str_eq(status, "Declined") {
        Some("declined".to_owned())
    } else if str_eq(status, "Missed") {
        Some("missed".to_owned())
    } else {
        None
    }
}

pub open spec fn opt_view(o: Option<String>) -> Option<Seq<char>> {
    match o {
        Some(s) => Some(s@),
        None => None,
    }
}

fn kind_of(direction: &str) -> (k: RowKind)
    ensures
        k == row_kind(direction@),
{
    if str_eq(direction, "incoming") {
        RowKind::Incoming
    } else if str_eq(direction, "outgoing") {
        RowKind::Outgoing
    } else if str_eq(direction, "call-history") {
        RowKind::Call
    } else if str_eq(direction, "profile-change") {
        RowKind::ProfileChange
    } else if str_eq(direction, "keychange") || str_eq(direction, "verified-change") {
        RowKind::Ignored
    } else {
        RowKind::Unknown
    }
}

/// The message a row becomes at position `index`, given the sending times and source IDs of
/// the messages before it; `None` for a row that is left out.
pub fn message_of(
    row: SignalRow,
    index: usize,
    stamps: &Vec<(i64, i64)>,
    user_id: UserId,
    myself_id: UserId,
) -> (r: Result<Option<Message>, SignalError>)
    requires
        contents_present(row.attachments@),
        index <= i64::MAX,
    ensures
        row_error(row) matches Some(e) ==> r == Err::<Option<Message>, SignalError>(e),
        row_error(row) is None && row_skipped(row) ==> r matches Ok(None),
        row_error(row) is None && !row_skipped(row) ==>
            (r matches Ok(Some(m)) && message_of_row(row, m, index as int, stamps@, user_id.0, myself_id.0)),
{
    let ghost g = row;
    let kind = kind_of(row.direction.as_str());
    let source_id = uuid_to_i64_pos(&row.uuid);
    let timestamp = row.timestamp_ms / 1000;
    match kind {
        RowKind::Ignored => Ok(None),
        RowKind::Unknown => Err(SignalError::UnknownDirection),
        RowKind::Call => {
            let call = match row.call {
                None => {
                    return Err(SignalError::CallNotFound);
                },
                Some(c) => c,
            };
            let incoming = str_eq(call.direction.as_str(), "Incoming");
            if !incoming && !str_eq(call.direction.as_str(), "Outgoing") {
                return Err(SignalError::UnknownCallDirection);
            }
            let reason = match call_reason_of(call.status.as_str()) {
                None => {
                    return Err(SignalError::UnknownCallStatus);
                },
                Some(reason) => reason,
            };
            let from_id = if incoming { user_id } else { myself_id };
            let text: Vec<RichTextElement> = match row.body {
                Some(b) => vec![RichText::make_plain(b)],
                None => Vec::new(),
            };
            let typed = MessageTyped::Service(MessageService {
                sealed_value_optional: Some(MessageServiceValue::PhoneCall {
                    duration_sec_option: None,
                    discard_reason_option: Some(reason),
                    members: Vec::new(),
                }),
            });
            Ok(Some(Message::new(index as i64, Some(source_id), timestamp, from_id, text, typed)))
        },
        RowKind::ProfileChange => {
            let change = match row.profile_change {
                None => {
                    return Err(SignalError::MissingProfileChange);
                },
                Some(p) => p,
            };
            if !str_eq(change.change_type.as_str(), "name") {
                return Err(SignalError::UnknownProfileChange);
            }
            let mut t = change.old_name;
            t.append(" changed name to ");
            t.append(change.new_name.as_str());
            let text: Vec<RichTextElement> = vec![RichText::make_plain(t)];
            let typed = MessageTyped::Service(MessageService {
                sealed_value_optional: Some(MessageServiceValue::Notice),
            });
            Ok(Some(Message::new(index as i64, Some(source_id), timestamp, user_id, text, typed)))
        },
        _ => {
            let from_id = if kind == RowKind::Incoming { user_id } else { myself_id };
            let text: Vec<RichTextElement> = match row.body {
                Some(b) => vec![RichText::make_plain(b)],
                None => Vec::new(),
            };
            let edit_timestamp_option = match row.edit_timestamp_ms {
                Some(e) => Some(e / 1000),
                None => None,
            };
            let reply_to_message_id_option = match row.quote_id {
                Some(q) => find_reply(stamps, q),
                None => None,
            };
            let typed = MessageTyped::Regular(MessageRegular {
                edit_timestamp_option,
                is_deleted: row.is_erased == 1,
                forward_from_name_option: None,
                reply_to_message_id_option,
                contents: row.attachments,
            });
            Ok(Some(Message::new(index as i64, Some(source_id), timestamp, from_id, text, typed)))
        },
    }
}

proof fn lemma_kept_len(rows: Seq<SignalRow>)
    ensures
        kept_rows(rows).len() <= rows.len(),
    decreases rows.len(),
{
    if rows.len() > 0 {
        lemma_kept_len(rows.drop_last());
    }
}

proof fn lemma_first_error_extends(rows: Seq<SignalRow>, j: int)
    requires
        0 <= j <= rows.len(),
        first_error(rows.take(j)) is Some,
    ensures
        first_error(rows) == first_error(rows.take(j)),
    decreases rows.len() - j,
{
    if j < rows.len() {
        assert(rows.take(j + 1).drop_last() =~= rows.take(j));
        lemma_first_error_extends(rows, j + 1);
    } else {
        assert(rows.take(j) =~= rows);
    }
}

/// The messages of a private conversation with the user `user_id`, from its rows in sending
/// order: each row that is not left out becomes a message numbered by its position, and the
/// first row that gives an error fails the whole conversation.
pub fn parse_conversation_messages(
    user_id: UserId,
    myself_id: UserId,
    rows: Vec<SignalRow>,
) -> (r: Result<Vec<Message>, SignalError>)
    requires
        rows_readable(rows@),
        rows@.len() <= i64::MAX,
    ensures
        match r {
            Err(e) => first_error(rows@) == Some(e),
            Ok(ms) => {
                &&& first_error(rows@) is None
                &&& ms@.len() == kept_rows(rows@).len()
                &&& forall|i: int| 0 <= i < ms@.len() ==> message_of_row(#[trigger] kept_rows(rows@)[i], ms@[i], i,
                    stamps_of(kept_rows(rows@).take(i)), user_id.0, myself_id.0)
            },
        },
{
    let ghost orig = rows@;
    let n = rows.len();
    let mut messages: Vec<Message> = Vec::new();
    let mut stamps: Vec<(i64, i64)> = Vec::new();
    let mut i: usize = 0;
    for row in it: rows.into_iter()
        invariant
            i == it.index(),
            it.seq() == orig,
            n == orig.len(),
            n <= i64::MAX,
            rows_readable(orig),
            first_error(orig.take(i as int)) is None,
            messages@.len() == kept_rows(orig.take(i as int)).len(),
            stamps@ == stamps_of(kept_rows(orig.take(i as int))),
            forall|k: int| 0 <= k < messages@.len() ==> message_of_row(#[trigger] kept_rows(orig.take(i as int))[k],
                messages@[k], k, stamps_of(kept_rows(orig.take(i as int)).take(k)), user_id.0, myself_id.0),
    {
        let ghost prefix = orig.take(i as int);
        let ghost next = orig.take(i + 1);
        proof {
            assert(row == orig[i as int]);
            assert(next.drop_last() =~= prefix);
            assert(next.last() == row);
            assert(contents_present(orig[i as int].attachments@));
            lemma_kept_len(prefix);
        }
        let index = messages.len();
        let ghost kept_before = kept_rows(prefix);
        let ghost stamps_before = stamps@;
        let ts = row.timestamp_ms;
        let source_id = uuid_to_i64_pos(&row.uuid);
        proof {
            assert((ts, source_id) == row_stamp(row));
        }
        match message_of(row, index, &stamps, user_id, myself_id) {
            Err(e) => {
                proof {
                    assert(first_error(next) == Some(e));
                    lemma_first_error_extends(orig, i + 1);
                }
                return Err(e);
            },
            Ok(None) => {
                proof {
                    assert(kept_rows(next) == kept_before);
                }
            },
            Ok(Some(m)) => {
                let ghost before = messages@;
                messages.push(m);
                stamps.push((ts, source_id));
                proof {
                    assert(kept_rows(next) == kept_before.push(orig[i as int]));
                    assert(stamps_of(kept_before.push(orig[i as int])) =~= stamps_before.push(row_stamp(orig[i as int])));
                    assert(kept_rows(next).take(index as int) =~= kept_before);
                    assert forall|k: int| 0 <= k < messages@.len() implies message_of_row(
                        #[trigger] kept_rows(next)[k], messages@[k], k, stamps_of(kept_rows(next).take(k)),
                        user_id.0, myself_id.0) by {
                        if k < index {
                            assert(kept_rows(next).take(k) =~= kept_before.take(k));
                        }
                    }
                }
            },
        }
        i = i + 1;
    }
    proof {
        assert(orig.take(n as int) =~= orig);
    }
    Ok(messages)
}

/// A UUID text that could not be read.
#[derive(Clone, Copy, Debug, PartialEq, Eq, Structural)]
pub struct InvalidUuid;

/// The ID a UUID text stands for: its position (see [`uuid_position`]), where the text reads
/// as a UUID.
pub fn uuid_str_to_id(s: &str) -> (r: Result<i64, InvalidUuid>)
    ensures
        match parsed_uuid(s@) {
            Some(b) => b.len() == 16 && r == Ok::<i64, InvalidUuid>(uuid_position(b) as i64),
            None => r == Err::<i64, InvalidUuid>(InvalidUuid),
        },
{
    match parse_uuid_bytes(s) {
        Some(b) => Ok(uuid_to_i64_pos(&b)),
        None => Err(InvalidUuid),
    }
}

fn clone_opt(o: &Option<String>) -> (r: Option<String>)
    ensures
        r == *o,
{
    match o {
        Some(s) => Some(s.clone()),
        None => None,
    }
}

/// The chat of a private conversation with `user`, holding its messages: none for a
/// conversation without messages. The chat's ID is the conversation's, its name the other
/// person's first name, its members myself and the other person (see
/// [`conversation_member_ids`]); `source_type` and `tpe` are the codes of the Signal source
/// and of personal chats.
pub fn conversation_chat(
    ds_uuid: PbUuid,
    chat_id: i64,
    user: &User,
    myself_id: UserId,
    messages: Vec<Message>,
    source_type: i32,
    tpe: i32,
) -> (r: Option<ChatWithMessages>)
    ensures
        messages@.len() == 0 <==> r is None,
        r matches Some(cwm) ==> {
            &&& cwm.messages == messages
            &&& cwm.chat.ds_uuid == ds_uuid
            &&& cwm.chat.id == chat_id
            &&& cwm.chat.name_option == user.first_name_option
            &&& cwm.chat.source_type == source_type && cwm.chat.tpe == tpe
            &&& cwm.chat.img_path_option is None && cwm.chat.main_chat_id is None
            &&& cwm.chat.member_ids@ == if user.id == myself_id.0 {
                seq![myself_id.0]
            } else {
                seq![myself_id.0, user.id]
            }
            &&& cwm.chat.msg_count == messages@.len() as i32
        },
{
    if messages.len() == 0 {
        return None;
    }
    let n = messages.len();
    Some(ChatWithMessages {
        chat: Chat {
            ds_uuid,
            id: chat_id,
            name_option: clone_opt(&user.first_name_option),
            source_type,
            tpe,
            img_path_option: None,
            member_ids: conversation_member_ids(UserId(user.id), myself_id),
            msg_count: n as i32,
            main_chat_id: None,
        },
        messages,
    })
}

} // verus!
