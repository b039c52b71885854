use chat_history_manager::dao::{ChatHistoryDao, DaoError};
use chat_history_manager::files::DatasetRoot;
use chat_history_manager::ids::{MessageInternalId, MessageSourceId, Timestamp, UserId};
use chat_history_manager::model::{
    Chat, ChatWithDetails, Dataset, Message, MessageRegular, MessageTyped, PbUuid, User,
};
use chat_history_manager::rich_text::RichText;
use chat_history_manager::stream::{BatchedMessageIterator, StreamStep, BATCH_SIZE};

fn msg(i: usize) -> Message {
    Message::new(
        i as i64,
        Some(i as i64),
        1_000 + i as i64,
        UserId(7),
        vec![RichText::make_plain(format!("Message {i}"))],
        MessageTyped::Regular(MessageRegular {
            edit_timestamp_option: None,
            is_deleted: false,
            forward_from_name_option: None,
            reply_to_message_id_option: None,
            contents: vec![],
        }),
    )
}

fn chat() -> Chat {
    Chat {
        ds_uuid: PbUuid { value: "00000000-0000-0000-0000-000000000000".to_owned() },
        id: 1,
        name_option: Some("Chat".to_owned()),
        source_type: 0,
        tpe: 0,
        img_path_option: None,
        member_ids: vec![7],
        msg_count: 0,
        main_chat_id: None,
    }
}

/// A store of one chat whose messages are numbered from zero; fetching after a given
/// position may be made to fail.
struct NumberedDao {
    n: usize,
    fail_after: Option<usize>,
    /// Answers with every message on the asked-for side, whatever the limit.
    greedy: bool,
    fetches: std::cell::Cell<usize>,
}

fn not_served() -> DaoError {
    DaoError::Storage("not served by this store".to_owned())
}

impl ChatHistoryDao for NumberedDao {
    fn name(&self) -> &str {
        "numbered"
    }
    fn storage_path(&self) -> &str {
        "/nowhere"
    }
    fn datasets(&self) -> Result<Vec<Dataset>, DaoError> {
        Err(not_served())
    }
    fn dataset_root(&self, _ds_uuid: &PbUuid) -> DatasetRoot {
        DatasetRoot("/nowhere".to_owned())
    }
    fn dataset_files(&self, _ds_uuid: &PbUuid) -> Result<Vec<String>, DaoError> {
        Ok(vec![])
    }
    fn myself(&self, _ds_uuid: &PbUuid) -> Result<User, DaoError> {
        Err(not_served())
    }
    fn users(&self, _ds_uuid: &PbUuid) -> Result<Vec<User>, DaoError> {
        Ok(vec![])
    }
    fn user_option(&self, _ds_uuid: &PbUuid, _id: i64) -> Result<Option<User>, DaoError> {
        Ok(None)
    }
    fn chats(&self, _ds_uuid: &PbUuid) -> Result<Vec<ChatWithDetails>, DaoError> {
        Ok(vec![])
    }
    fn chat_option(&self, _ds_uuid: &PbUuid, _id: i64) -> Result<Option<ChatWithDetails>, DaoError> {
        Ok(None)
    }
    // The model of the store that the contracts speak of exists for the verifier alone.
    fn stored_messages(&self, _chat: Chat) -> vstd::seq::Seq<Message> {
        unreachable!()
    }
    fn scroll_spec(&self, _chat: Chat, _offset: usize, _limit: usize) -> Result<vstd::seq::Seq<Message>, DaoError> {
        unreachable!()
    }
    fn last_spec(&self, _chat: Chat, _limit: usize) -> Result<vstd::seq::Seq<Message>, DaoError> {
        unreachable!()
    }
    fn before_spec(&self, _chat: Chat, _msg: Message, _limit: usize) -> Result<vstd::seq::Seq<Message>, DaoError> {
        unreachable!()
    }
    fn after_spec(&self, _chat: Chat, _msg: Message, _limit: usize) -> Result<vstd::seq::Seq<Message>, DaoError> {
        unreachable!()
    }
    fn between_spec(&self, _chat: Chat, _m1: Message, _m2: Message) -> Result<vstd::seq::Seq<Message>, DaoError> {
        unreachable!()
    }
    fn scroll_messages(&self, _chat: &Chat, offset: usize, limit: usize) -> Result<Vec<Message>, DaoError> {
        let start = offset.min(self.n);
        let end = (start + limit).min(self.n);
        Ok((start..end).map(msg).collect())
    }
    fn last_messages(&self, chat: &Chat, limit: usize) -> Result<Vec<Message>, DaoError> {
        self.scroll_messages(chat, self.n.saturating_sub(limit), limit)
    }
    fn messages_before_impl(&self, _chat: &Chat, m: &Message, limit: usize) -> Result<Vec<Message>, DaoError> {
        let end = m.internal_id as usize;
        let start = if self.greedy { 0 } else { end.saturating_sub(limit) };
        Ok((start..end).map(msg).collect())
    }
    fn messages_after_impl(&self, chat: &Chat, m: &Message, limit: usize) -> Result<Vec<Message>, DaoError> {
        self.fetches.set(self.fetches.get() + 1);
        let pos = m.internal_id as usize;
        if self.fail_after.is_some_and(|f| pos >= f) {
            return Err(DaoError::Storage(format!("cannot read after {pos}")));
        }
        let limit = if self.greedy { self.n } else { limit };
        self.scroll_messages(chat, pos + 1, limit)
    }
    fn messages_between_impl(&self, _chat: &Chat, m1: &Message, m2: &Message) -> Result<Vec<Message>, DaoError> {
        Ok(((m1.internal_id as usize + 1)..(m2.internal_id as usize)).map(msg).collect())
    }
    fn count_messages_between(&self, _chat: &Chat, m1: &Message, m2: &Message) -> Result<usize, DaoError> {
        Ok((m2.internal_id - m1.internal_id - 1).max(0) as usize)
    }
    fn messages_around_date(
        &self,
        _chat: &Chat,
        _date_ts: Timestamp,
        _limit: usize,
    ) -> Result<(Vec<Message>, Vec<Message>), DaoError> {
        Err(not_served())
    }
    fn message_option(&self, _chat: &Chat, source_id: MessageSourceId) -> Result<Option<Message>, DaoError> {
        Ok(if (source_id.0 as usize) < self.n { Some(msg(source_id.0 as usize)) } else { None })
    }
    fn message_option_by_internal_id(&self, _chat: &Chat, id: MessageInternalId) -> Result<Option<Message>, DaoError> {
        Ok(if (id.0 as usize) < self.n { Some(msg(id.0 as usize)) } else { None })
    }
    fn is_loaded(&self, storage_path: &str) -> bool {
        storage_path == "/nowhere"
    }
}

/// Reads every message of the chat through the stream, fetching each later batch.
fn read_all(dao: &NumberedDao, chat: &Chat) -> Result<Vec<Message>, DaoError> {
    let mut stream = BatchedMessageIterator::new(dao.first_messages(chat, BATCH_SIZE)?);
    let mut out = vec![];
    loop {
        match stream.next() {
            StreamStep::Message(m) => out.push(m),
            StreamStep::FetchAfter => {
                let batch = dao.messages_after(chat, stream.pending().unwrap(), BATCH_SIZE + 1);
                match stream.resume(batch) {
                    Some(Ok(m)) => out.push(m),
                    Some(Err(e)) => return Err(e),
                    None => panic!("nothing was waiting"),
                }
            }
            StreamStep::End => break,
        }
    }
    Ok(out)
}

fn ids(msgs: &[Message]) -> Vec<i64> {
    msgs.iter().map(|m| m.internal_id).collect()
}

fn dao(n: usize) -> NumberedDao {
    NumberedDao { n, fail_after: None, greedy: false, fetches: std::cell::Cell::new(0) }
}

#[test]
fn stream_reads_every_message_in_order() {
    for n in [0, 1, 2, 999, 1000, 1001, 2002, 2503] {
        let d = dao(n);
        let read = read_all(&d, &chat()).unwrap();
        assert_eq!(ids(&read), (0..n as i64).collect::<Vec<_>>(), "n = {n}");
    }
}

#[test]
fn stream_fetches_a_batch_when_the_current_one_runs_out() {
    let d = dao(2503);
    read_all(&d, &chat()).unwrap();
    // The first batch has 1000 messages, each later one up to 1001; the last fetch comes back empty.
    assert_eq!(d.fetches.get(), 3);
    let d = dao(5);
    read_all(&d, &chat()).unwrap();
    assert_eq!(d.fetches.get(), 1);
}

#[test]
fn stream_hands_on_a_failed_fetch() {
    let d = NumberedDao { n: 1500, fail_after: Some(0), greedy: false, fetches: std::cell::Cell::new(0) };
    match read_all(&d, &chat()) {
        Err(DaoError::Storage(msg)) => assert_eq!(msg, "cannot read after 999"),
        other => panic!("unexpected {other:?}"),
    }
}

#[test]
fn stream_peek_pending_and_end() {
    let mut stream = BatchedMessageIterator::new(vec![msg(0), msg(1)]);
    assert_eq!(stream.peek().map(|m| m.internal_id), Some(0));
    assert!(matches!(stream.next(), StreamStep::Message(ref m) if m.internal_id == 0));
    assert_eq!(stream.peek().map(|m| m.internal_id), Some(1));
    assert!(matches!(stream.next(), StreamStep::FetchAfter));
    assert_eq!(stream.pending().map(|m| m.internal_id), Some(1));
    assert!(stream.peek().is_none());
    // Asking again while a message waits changes nothing.
    assert!(matches!(stream.next(), StreamStep::FetchAfter));
    match stream.resume(Ok(vec![msg(2)])) {
        Some(Ok(m)) => assert_eq!(m.internal_id, 1),
        other => panic!("unexpected {other:?}"),
    }
    assert!(stream.pending().is_none());
    assert!(stream.resume(Ok(vec![])).is_none());
    assert!(matches!(stream.next(), StreamStep::FetchAfter));
    match stream.resume(Ok(vec![])) {
        Some(Ok(m)) => assert_eq!(m.internal_id, 2),
        other => panic!("unexpected {other:?}"),
    }
    assert!(matches!(stream.next(), StreamStep::End));
    assert!(matches!(stream.next(), StreamStep::End));
}

#[test]
fn dao_refuses_zero_limits_and_oversized_answers() {
    let d = dao(10);
    assert!(matches!(d.messages_after(&chat(), &msg(0), 0), Err(DaoError::LimitIsZero)));
    assert!(matches!(d.messages_before(&chat(), &msg(5), 0), Err(DaoError::LimitIsZero)));
    assert_eq!(ids(&d.messages_before(&chat(), &msg(5), 2).unwrap()), vec![3, 4]);
    assert_eq!(ids(&d.messages_after(&chat(), &msg(5), 2).unwrap()), vec![6, 7]);
    assert_eq!(ids(&d.first_messages(&chat(), 3).unwrap()), vec![0, 1, 2]);
    assert_eq!(ids(&d.messages_between(&chat(), &msg(2), &msg(5)).unwrap()), vec![3, 4]);
    let greedy = NumberedDao { n: 10, fail_after: None, greedy: true, fetches: std::cell::Cell::new(0) };
    assert!(matches!(greedy.messages_after(&chat(), &msg(0), 2), Err(DaoError::LimitExceeded)));
    assert!(matches!(greedy.messages_before(&chat(), &msg(9), 2), Err(DaoError::LimitExceeded)));
}

#[test]
fn dao_pages_around_a_message() {
    let d = dao(6);
    let len = 6;
    assert_eq!(ids(&d.messages_after(&chat(), &msg(0), 2).unwrap()), vec![1, 2]);
    assert_eq!(ids(&d.messages_after(&chat(), &msg(1), 1000).unwrap()), vec![2, 3, 4, 5]);
    assert!(d.messages_after(&chat(), &msg(len - 1), 1000).unwrap().is_empty());
    assert_eq!(ids(&d.messages_before(&chat(), &msg(len - 1), 2).unwrap()), vec![3, 4]);
    assert_eq!(ids(&d.messages_before(&chat(), &msg(len - 2), 1000).unwrap()), vec![0, 1, 2, 3]);
    assert!(d.messages_before(&chat(), &msg(0), 1000).unwrap().is_empty());
    assert_eq!(ids(&d.first_messages(&chat(), 2).unwrap()), vec![0, 1]);
    assert_eq!(ids(&d.first_messages(&chat(), 1000).unwrap()), vec![0, 1, 2, 3, 4, 5]);
    assert_eq!(ids(&d.messages_between(&chat(), &msg(1), &msg(4)).unwrap()), vec![2, 3]);
}
