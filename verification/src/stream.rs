//! Reading the messages of a chat from a store in batches, one message at a time. The stream
//! decides; its caller fetches the batches from the store and hands them over.
use vstd::prelude::*;
use crate::dao::DaoError;
use crate::model::Message;

verus! {

/// How many messages are fetched at a time.
pub const BATCH_SIZE: usize = 1000;

/// What the stream hands out, or asks for, next.
#[derive(Debug)]
pub enum StreamStep {
    /// The next message.
    Message(Message),
    /// The current batch ran out: the messages after [`BatchedMessageIterator::pending`] are
    /// to be fetched (at most `BATCH_SIZE + 1` of them) and handed to
    /// [`BatchedMessageIterator::resume`], which then gives out the pending message.
    FetchAfter,
    /// There are no more messages.
    End,
}

/// The messages of a chat, in batches: the next message is known in advance, the rest of
/// the current batch waits its turn, and once it runs out the next batch is asked for.
pub struct BatchedMessageIterator {
    /// The rest of the current batch, last message first.
    saved_batch: Vec<Message>,
    next_option: Option<Message>,
    /// The message given out once the batch after it has been fetched.
    pending_option: Option<Message>,
    /// Every message of every batch so far, in order.
    received: Ghost<Seq<Message>>,
    /// How many messages have been given out.
    pos: Ghost<int>,
    /// Whether fetching a batch failed (the stream then ends).
    failed: Ghost<bool>,
}

/// The messages reversed: the last one first.
fn reversed(v: Vec<Message>) -> (r: Vec<Message>)
    ensures
        r@.len() == v@.len(),
        forall|i: int| 0 <= i < v@.len() ==> #[trigger] r@[i] == v@[v@.len() - 1 - i],
{
    let ghost orig = v@;
    let mut v = v;
    let mut r: Vec<Message> = Vec::new();
    while v.len() > 0
        invariant
            r@.len() + v@.len() == orig.len(),
            v@ == orig.subrange(0, v@.len() as int),
            forall|i: int| 0 <= i < r@.len() ==> #[trigger] r@[i] == orig[orig.len() - 1 - i],
        decreases v@.len(),
    {
        let x = v.pop().unwrap();
        r.push(x);
    }
    r
}

impl BatchedMessageIterator {
    /// Every message of every batch so far, in order.
    pub closed spec fn received(&self) -> Seq<Message> {
        self.received@
    }

    /// How many messages have been given out.
    pub closed spec fn position(&self) -> int {
        self.pos@
    }

    /// Whether fetching a batch failed.
    pub closed spec fn has_failed(&self) -> bool {
        self.failed@
    }

    /// The next message, if it is known.
    pub closed spec fn upcoming(&self) -> Option<Message> {
        self.next_option
    }

    /// The message waiting for the next batch, if any.
    pub closed spec fn waiting(&self) -> Option<Message> {
        self.pending_option
    }

    /// The messages given out so far are the first ones received; the next message is the
    /// one after them, followed by the saved batch; a message waits only when its batch ran
    /// out, and the stream runs dry before the end of what it received only by a failure.
    pub closed spec fn wf(&self) -> bool {
        let s = self.received@;
        let p = self.pos@;
        &&& 0 <= p <= s.len()
        &&& self.pending_option matches Some(m) ==> {
            &&& m == s[p]
            &&& p + 1 == s.len()
            &&& self.next_option is None
            &&& self.saved_batch@.len() == 0
            &&& !self.failed@
        }
        &&& self.pending_option is None ==> (self.next_option matches Some(m) ==> {
            &&& m == s[p]
            &&& !self.failed@
            &&& self.saved_batch@.len() == s.len() - (p + 1)
            &&& forall|i: int| 0 <= i < self.saved_batch@.len() ==> #[trigger] self.saved_batch@[i] == s[s.len() - 1 - i]
        })
        &&& self.pending_option is None && self.next_option is None ==> {
            &&& self.saved_batch@.len() == 0
            &&& (self.failed@ || p == s.len())
        }
    }

    /// A stream over the first batch of a chat's messages.
    pub fn new(first_batch: Vec<Message>) -> (r: Self)
        ensures
            r.wf(),
            r.received() == first_batch@,
            r.position() == 0,
            !r.has_failed(),
            r.waiting() is None,
            first_batch@.len() == 0 ==> r.upcoming() is None,
            first_batch@.len() > 0 ==> r.upcoming() == Some(first_batch@[0]),
    {
        let ghost s = first_batch@;
        let mut batch = reversed(first_batch);
        let next_option = if batch.len() > 0 {
            Some(batch.pop().unwrap())
        } else {
            None
        };
        BatchedMessageIterator {
            saved_batch: batch,
            next_option,
            pending_option: None,
            received: Ghost(s),
            pos: Ghost(0),
            failed: Ghost(false),
        }
    }

    /// The next message, without moving on.
    pub fn peek(&self) -> (r: Option<&Message>)
        ensures
            match (r, self.upcoming()) {
                (Some(a), Some(b)) => *a == b,
                (None, None) => true,
                _ => false,
            },
    {
        self.next_option.as_ref()
    }

    /// The message waiting for the next batch, if any.
    pub fn pending(&self) -> (r: Option<&Message>)
        ensures
            match (r, self.waiting()) {
                (Some(a), Some(b)) => *a == b,
                (None, None) => true,
                _ => false,
            },
    {
        self.pending_option.as_ref()
    }

    /// The next message, moving on to the one after it; or, where the current batch has run
    /// out, a request for the batch after the next message, which then waits; or the end,
    /// once there are no more messages or a fetch has failed.
    pub fn next(&mut self) -> (r: StreamStep)
        requires
            old(self).wf(),
        ensures
            final(self).wf(),
            final(self).received() == old(self).received(),
            final(self).has_failed() == old(self).has_failed(),
            old(self).waiting() is Some ==> r is FetchAfter && final(self).waiting() == old(self).waiting()
                && final(self).position() == old(self).position(),
            old(self).waiting() is None && old(self).upcoming() is None ==> r is End
                && final(self).position() == old(self).position() && final(self).waiting() is None
                && final(self).upcoming() is None,
            old(self).waiting() is None ==> (old(self).upcoming() matches Some(m) ==> {
                ||| (r == StreamStep::Message(m) && final(self).position() == old(self).position() + 1
                    && final(self).waiting() is None && old(self).position() + 1 < old(self).received().len())
                ||| (r is FetchAfter && final(self).waiting() == Some(m) && final(self).position() == old(self).position()
                    && old(self).position() + 1 == old(self).received().len())
            }),
            final(self).position() <= final(self).received().len(),
    {
        if self.pending_option.is_some() {
            return StreamStep::FetchAfter;
        }
        let current = self.next_option.take();
        match current {
            None => StreamStep::End,
            Some(cur) => {
                let ghost s = self.received@;
                let ghost pos = self.pos@;
                if self.saved_batch.len() > 0 {
                    let nxt = self.saved_batch.pop().unwrap();
                    proof {
                        assert(nxt == s[pos + 1]);
                    }
                    self.next_option = Some(nxt);
                    self.pos = Ghost(pos + 1);
                    StreamStep::Message(cur)
                } else {
                    self.pending_option = Some(cur);
                    StreamStep::FetchAfter
                }
            },
        }
    }

    /// Takes the batch fetched after the waiting message and gives out that message; where
    /// the fetch failed, the error is handed on, the message is dropped and the stream ends.
    /// Nothing happens (`None`) if no message is waiting.
    pub fn resume(&mut self, batch: Result<Vec<Message>, DaoError>) -> (r: Option<Result<Message, DaoError>>)
        requires
            old(self).wf(),
        ensures
            final(self).wf(),
            old(self).waiting() is None ==> r is None && final(self).received() == old(self).received()
                && final(self).position() == old(self).position() && final(self).waiting() is None
                && final(self).upcoming() == old(self).upcoming() && final(self).has_failed() == old(self).has_failed(),
            old(self).waiting() matches Some(m) ==> final(self).waiting() is None && match batch {
                Ok(b) => {
                    &&& r == Some(Ok::<Message, DaoError>(m))
                    &&& final(self).received() == old(self).received() + b@
                    &&& final(self).position() == old(self).position() + 1
                    &&& !final(self).has_failed()
                    &&& (b@.len() == 0 ==> final(self).upcoming() is None)
                    &&& (b@.len() > 0 ==> final(self).upcoming() == Some(b@[0]))
                },
                Err(e) => {
                    &&& r == Some(Err::<Message, DaoError>(e))
                    &&& final(self).received() == old(self).received()
                    &&& final(self).position() == old(self).position()
                    &&& final(self).has_failed()
                    &&& final(self).upcoming() is None
                },
            },
            final(self).position() <= final(self).received().len(),
    {
        let waiting = self.pending_option.take();
        match waiting {
            None => None,
            Some(cur) => {
                let ghost s = self.received@;
                let ghost pos = self.pos@;
                match batch {
                    Ok(msgs) => {
                        let ghost b = msgs@;
                        let mut rev = reversed(msgs);
                        let next_option = if rev.len() > 0 {
                            Some(rev.pop().unwrap())
                        } else {
                            None
                        };
                        self.received = Ghost(s + b);
                        self.pos = Ghost(pos + 1);
                        self.saved_batch = rev;
                        self.next_option = next_option;
                        proof {
                            assert forall|i: int| 0 <= i < self.saved_batch@.len() implies
                                #[trigger] self.saved_batch@[i] == (s + b)[(s + b).len() - 1 - i] by {
                                assert((s + b)[(s + b).len() - 1 - i] == b[b.len() - 1 - i]);
                            }
                            if b.len() > 0 {
                                assert((s + b)[pos + 1] == b[0]);
                            }
                        }
                        Some(Ok(cur))
                    },
                    Err(e) => {
                        self.failed = Ghost(true);
                        Some(Err(e))
                    },
                }
            },
        }
    }
}

} // verus!
