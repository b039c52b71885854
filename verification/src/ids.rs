use vstd::prelude::*;

verus! {

/// Dataset-unique identifier of a user.
#[derive(Clone, Copy, Debug, PartialEq, Eq, Structural, Hash)]
pub struct UserId(pub i64);

impl UserId {
    /// The smallest representable user ID.
    pub fn min_value() -> (r: UserId)
        ensures
            r.0 == i64::MIN,
    {
        UserId(i64::MIN)
    }

    /// The ID used for users whose ID is not known.
    pub fn invalid() -> (r: UserId)
        ensures
            r.0 == 0,
    {
        UserId(0)
    }

    /// A user ID is valid iff it is positive.
    pub fn is_valid(&self) -> (r: bool)
        ensures
            r == (self.0 > 0),
    {
        self.0 > 0
    }
}

/// Dataset-unique identifier of a chat.
#[derive(Clone, Copy, Debug, PartialEq, Eq, Structural, Hash)]
pub struct ChatId(pub i64);

/// Identifier of a message given by the source it was loaded from.
#[derive(Clone, Copy, Debug, PartialEq, Eq, Structural, Hash, PartialOrd, Ord)]
pub struct MessageSourceId(pub i64);

/// Identifier of a message inside a chat storage.
#[derive(Clone, Copy, Debug, PartialEq, Eq, Structural, Hash, PartialOrd, Ord)]
pub struct MessageInternalId(pub i64);

/// Number of epoch seconds.
#[derive(Clone, Copy, Debug, PartialEq, Eq, Structural, Hash, PartialOrd, Ord)]
pub struct Timestamp(pub i64);

impl Timestamp {
    pub fn min_value() -> (r: Timestamp)
        ensures
            r.0 == 0,
    {
        Timestamp(0)
    }

    pub fn max_value() -> (r: Timestamp)
        ensures
            r.0 == i64::MAX,
    {
        Timestamp(i64::MAX)
    }
}

/// Raw internal ID assigned to messages that were not stored yet.
pub const NO_INTERNAL_ID: i64 = -1;

/// Internal ID of a message of the master (older) dataset.
#[derive(Clone, Copy, Debug, PartialEq, Eq, Structural)]
pub struct MasterInternalId(pub i64);

impl MasterInternalId {
    pub fn generalize(&self) -> (r: MessageInternalId)
        ensures
            r.0 == self.0,
    {
        MessageInternalId(self.0)
    }
}

/// Internal ID of a message of the slave (newer) dataset.
#[derive(Clone, Copy, Debug, PartialEq, Eq, Structural)]
pub struct SlaveInternalId(pub i64);

impl SlaveInternalId {
    pub fn generalize(&self) -> (r: MessageInternalId)
        ensures
            r.0 == self.0,
    {
        MessageInternalId(self.0)
    }
}

} // verus!
