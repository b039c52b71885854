//! Access to loaded chat histories.
use vstd::prelude::*;
use crate::ids::{Timestamp, MessageSourceId, MessageInternalId};
use crate::model::{Dataset, PbUuid, User, Chat, ChatWithDetails, Message};
use crate::files::DatasetRoot;

verus! {

/// Why a request to a chat history store failed.
#[derive(Debug)]
pub enum DaoError {
    /// A number of messages to fetch was zero.
    LimitIsZero,
    /// The store returned more messages than were asked for.
    LimitExceeded,
    /// The store could not serve the request.
    Storage(String),
}

/// Whether a result is the given answer: the same messages, or the same error.
pub open spec fn answers(r: Result<Vec<Message>, DaoError>, s: Result<Seq<Message>, DaoError>) -> bool {
    match r {
        Ok(v) => s == Ok::<Seq<Message>, DaoError>(v@),
        Err(e) => s == Err::<Seq<Message>, DaoError>(e),
    }
}

/// Whether a result is the store's answer checked against a limit: its messages if there are
/// at most that many, a refusal if there are more, and its error as it is.
pub open spec fn checked_answer(r: Result<Vec<Message>, DaoError>, s: Result<Seq<Message>, DaoError>, limit: int) -> bool {
    match s {
        Ok(w) => if w.len() <= limit {
            r matches Ok(v) && v@ == w
        } else {
            r matches Err(DaoError::LimitExceeded)
        },
        Err(e) => r == Err::<Vec<Message>, DaoError>(e),
    }
}

pub open spec fn min_int(a: int, b: int) -> int {
    if a <= b {
        a
    } else {
        b
    }
}

/// The messages left after skipping `offset` of them, at most `limit` of them.
pub open spec fn scroll_slice(ms: Seq<Message>, offset: int, limit: int) -> Seq<Message> {
    ms.subrange(min_int(offset, ms.len() as int), min_int(offset + limit, ms.len() as int))
}

/// The last `limit` messages, or all of them if there are fewer.
pub open spec fn last_slice(ms: Seq<Message>, limit: int) -> Seq<Message> {
    ms.subrange(ms.len() - min_int(limit, ms.len() as int), ms.len() as int)
}

/// Whether a message stands at the given position, known by its internal ID.
pub open spec fn at(ms: Seq<Message>, i: int, msg: Message) -> bool {
    0 <= i < ms.len() && ms[i].internal_id == msg.internal_id
}

/// Whether `v` is the up to `limit` messages just before the given one, in order.
pub open spec fn before_slice(ms: Seq<Message>, msg: Message, limit: int, v: Seq<Message>) -> bool {
    exists|i: int| #[trigger] at(ms, i, msg) && v == ms.subrange(if i >= limit { i - limit } else { 0 }, i)
}

/// Whether `v` is the up to `limit` messages just after the given one, in order.
pub open spec fn after_slice(ms: Seq<Message>, msg: Message, limit: int, v: Seq<Message>) -> bool {
    exists|i: int| #[trigger] at(ms, i, msg) && v == ms.subrange(i + 1, min_int(i + 1 + limit, ms.len() as int))
}

/// Whether `v` is the messages strictly between the two given ones, in order.
pub open spec fn between_slice(ms: Seq<Message>, msg1: Message, msg2: Message, v: Seq<Message>) -> bool {
    exists|i: int, j: int| #[trigger] at(ms, i, msg1) && #[trigger] at(ms, j, msg2) && v == (if i < j {
        ms.subrange(i + 1, j)
    } else {
        Seq::<Message>::empty()
    })
}

/// A store of chat histories. Everything except for messages should be pre-cached and
/// readily available.
pub trait ChatHistoryDao {
    /// User-friendly name of the loaded data.
    fn name(&self) -> &str;

    /// Directory which stores everything, including the database itself at the root level.
    fn storage_path(&self) -> &str;

    fn datasets(&self) -> Result<Vec<Dataset>, DaoError>;

    /// Directory which stores everything in the dataset. All files are guaranteed to have
    /// this as a prefix.
    fn dataset_root(&self, ds_uuid: &PbUuid) -> DatasetRoot;

    /// All files referenced by entities of this dataset. Some might not exist.
    fn dataset_files(&self, ds_uuid: &PbUuid) -> Result<Vec<String>, DaoError>;

    fn myself(&self, ds_uuid: &PbUuid) -> Result<User, DaoError>;

    /// Contains myself as the first element. Order must be stable. Method is expected to be fast.
    fn users(&self, ds_uuid: &PbUuid) -> Result<Vec<User>, DaoError>;

    fn user_option(&self, ds_uuid: &PbUuid, id: i64) -> Result<Option<User>, DaoError>;

    fn chats(&self, ds_uuid: &PbUuid) -> Result<Vec<ChatWithDetails>, DaoError>;

    fn chat_option(&self, ds_uuid: &PbUuid, id: i64) -> Result<Option<ChatWithDetails>, DaoError>;

    /// The messages of a chat held in the store, in order.
    spec fn stored_messages(&self, chat: Chat) -> Seq<Message>;

    /// What the store answers to a request for N messages after skipping the first M.
    spec fn scroll_spec(&self, chat: Chat, offset: usize, limit: usize) -> Result<Seq<Message>, DaoError>;

    /// What the store answers to a request for the last N messages.
    spec fn last_spec(&self, chat: Chat, limit: usize) -> Result<Seq<Message>, DaoError>;

    /// What the store answers to a request for N messages before the given one.
    spec fn before_spec(&self, chat: Chat, msg: Message, limit: usize) -> Result<Seq<Message>, DaoError>;

    /// What the store answers to a request for N messages after the given one.
    spec fn after_spec(&self, chat: Chat, msg: Message, limit: usize) -> Result<Seq<Message>, DaoError>;

    /// What the store answers to a request for the messages between the given ones.
    spec fn between_spec(&self, chat: Chat, msg1: Message, msg2: Message) -> Result<Seq<Message>, DaoError>;

    /// N messages after skipping the first M of them. Trivial pagination in a nutshell.
    fn scroll_messages(&self, chat: &Chat, offset: usize, limit: usize) -> (r: Result<Vec<Message>, DaoError>)
        ensures
            answers(r, self.scroll_spec(*chat, offset, limit)),
            self.scroll_spec(*chat, offset, limit) matches Ok(w) ==> w == scroll_slice(
                self.stored_messages(*chat),
                offset as int,
                limit as int,
            ),
    ;

    /// The first N messages.
    fn first_messages(&self, chat: &Chat, limit: usize) -> (r: Result<Vec<Message>, DaoError>)
        ensures
            answers(r, self.scroll_spec(*chat, 0, limit)),
            r matches Ok(v) ==> v@ == scroll_slice(self.stored_messages(*chat), 0, limit as int),
    {
        self.scroll_messages(chat, 0, limit)
    }

    /// The last N messages.
    fn last_messages(&self, chat: &Chat, limit: usize) -> (r: Result<Vec<Message>, DaoError>)
        ensures
            answers(r, self.last_spec(*chat, limit)),
            self.last_spec(*chat, limit) matches Ok(w) ==> w == last_slice(self.stored_messages(*chat), limit as int),
    ;

    /// N messages before the given one (exclusive). The message must be present. A limit of
    /// zero is refused, and so is an answer from the store with more messages than asked for;
    /// otherwise the store's answer is passed on.
    fn messages_before(&self, chat: &Chat, msg: &Message, limit: usize) -> (r: Result<Vec<Message>, DaoError>)
        ensures
            limit == 0 ==> r matches Err(DaoError::LimitIsZero),
            limit > 0 ==> checked_answer(r, self.before_spec(*chat, *msg, limit), limit as int),
            r matches Ok(v) ==> before_slice(self.stored_messages(*chat), *msg, limit as int, v@),
    {
        if limit == 0 {
            return Err(DaoError::LimitIsZero);
        }
        let result = self.messages_before_impl(chat, msg, limit)?;
        if result.len() > limit {
            return Err(DaoError::LimitExceeded);
        }
        Ok(result)
    }

    /// N messages before the given one (exclusive), for a positive limit.
    fn messages_before_impl(&self, chat: &Chat, msg: &Message, limit: usize) -> (r: Result<Vec<Message>, DaoError>)
        ensures
            answers(r, self.before_spec(*chat, *msg, limit)),
            self.before_spec(*chat, *msg, limit) matches Ok(w) ==> before_slice(
                self.stored_messages(*chat),
                *msg,
                limit as int,
                w,
            ),
    ;

    /// N messages after the given one (exclusive). The message must be present. A limit of
    /// zero is refused, and so is an answer from the store with more messages than asked for;
    /// otherwise the store's answer is passed on.
    fn messages_after(&self, chat: &Chat, msg: &Message, limit: usize) -> (r: Result<Vec<Message>, DaoError>)
        ensures
            limit == 0 ==> r matches Err(DaoError::LimitIsZero),
            limit > 0 ==> checked_answer(r, self.after_spec(*chat, *msg, limit), limit as int),
            r matches Ok(v) ==> after_slice(self.stored_messages(*chat), *msg, limit as int, v@),
    {
        if limit == 0 {
            return Err(DaoError::LimitIsZero);
        }
        let result = self.messages_after_impl(chat, msg, limit)?;
        if result.len() > limit {
            return Err(DaoError::LimitExceeded);
        }
        Ok(result)
    }

    /// N messages after the given one (exclusive), for a positive limit.
    fn messages_after_impl(&self, chat: &Chat, msg: &Message, limit: usize) -> (r: Result<Vec<Message>, DaoError>)
        ensures
            answers(r, self.after_spec(*chat, *msg, limit)),
            self.after_spec(*chat, *msg, limit) matches Ok(w) ==> after_slice(
                self.stored_messages(*chat),
                *msg,
                limit as int,
                w,
            ),
    ;

    /// Messages between the given ones (exclusive). The messages must be present.
    fn messages_between(&self, chat: &Chat, msg1: &Message, msg2: &Message) -> (r: Result<Vec<Message>, DaoError>)
        ensures
            answers(r, self.between_spec(*chat, *msg1, *msg2)),
            r matches Ok(v) ==> between_slice(self.stored_messages(*chat), *msg1, *msg2, v@),
    {
        self.messages_between_impl(chat, msg1, msg2)
    }

    /// Messages between the given ones (exclusive).
    fn messages_between_impl(&self, chat: &Chat, msg1: &Message, msg2: &Message) -> (r: Result<Vec<Message>, DaoError>)
        ensures
            answers(r, self.between_spec(*chat, *msg1, *msg2)),
            self.between_spec(*chat, *msg1, *msg2) matches Ok(w) ==> between_slice(
                self.stored_messages(*chat),
                *msg1,
                *msg2,
                w,
            ),
    ;

    /// Number of messages between the given ones (exclusive). The messages must be present.
    fn count_messages_between(&self, chat: &Chat, msg1: &Message, msg2: &Message) -> Result<usize, DaoError>;

    /// N messages before and N at-or-after the given date.
    fn messages_around_date(&self, chat: &Chat, date_ts: Timestamp, limit: usize) -> Result<(Vec<Message>, Vec<Message>), DaoError>;

    /// The message with the given source ID, if any.
    fn message_option(&self, chat: &Chat, source_id: MessageSourceId) -> Result<Option<Message>, DaoError>;

    /// The message with the given internal ID, if any.
    fn message_option_by_internal_id(&self, chat: &Chat, internal_id: MessageInternalId) -> Result<Option<Message>, DaoError>;

    /// Whether the given data path is the one loaded in this store.
    fn is_loaded(&self, storage_path: &str) -> bool;
}

} // verus!
