//! Messages of the master (older) and slave (newer) datasets of a merge, told apart by type.
use vstd::prelude::*;
use crate::ids::{MasterInternalId, SlaveInternalId};
use crate::model::Message;

verus! {

/// A value with an internal ID of its own kind.
pub trait WithTypedId {
    type Item: Clone;

    fn typed_id(&self) -> Self::Item;
}

/// Message of the master (older) dataset.
#[derive(Debug)]
pub struct MasterMessage(pub Message);

/// Message of the slave (newer) dataset.
#[derive(Debug)]
pub struct SlaveMessage(pub Message);

/// Two messages are the same stored message: equal internal and source IDs.
pub open spec fn same_stored_message(a: Message, b: Message) -> bool {
    a.internal_id == b.internal_id && a.source_id_option == b.source_id_option
}

impl PartialEq for MasterMessage {
    fn eq(&self, other: &Self) -> (r: bool) {
        self.0.internal_id == other.0.internal_id && match (self.0.source_id_option, other.0.source_id_option) {
            (Some(a), Some(b)) => a == b,
            (None, None) => true,
            _ => false,
        }
    }
}

impl vstd::std_specs::cmp::PartialEqSpecImpl for MasterMessage {
    open spec fn obeys_eq_spec() -> bool {
        true
    }

    open spec fn eq_spec(&self, other: &Self) -> bool {
        same_stored_message(self.0, other.0)
    }
}

impl PartialEq for SlaveMessage {
    fn eq(&self, other: &Self) -> (r: bool) {
        self.0.internal_id == other.0.internal_id && match (self.0.source_id_option, other.0.source_id_option) {
            (Some(a), Some(b)) => a == b,
            (None, None) => true,
            _ => false,
        }
    }
}

impl vstd::std_specs::cmp::PartialEqSpecImpl for SlaveMessage {
    open spec fn obeys_eq_spec() -> bool {
        true
    }

    open spec fn eq_spec(&self, other: &Self) -> bool {
        same_stored_message(self.0, other.0)
    }
}

impl WithTypedId for MasterMessage {
    type Item = MasterInternalId;

    fn typed_id(&self) -> (r: MasterInternalId)
        ensures
            r.0 == self.0.internal_id,
    {
        MasterInternalId(self.0.internal_id)
    }
}

impl WithTypedId for SlaveMessage {
    type Item = SlaveInternalId;

    fn typed_id(&self) -> (r: SlaveInternalId)
        ensures
            r.0 == self.0.internal_id,
    {
        SlaveInternalId(self.0.internal_id)
    }
}

} // verus!
