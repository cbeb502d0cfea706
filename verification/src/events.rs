//! Notifications: one record for every operation that changed a listing.

use crate::identity::Identity;
use vstd::prelude::*;

verus! {

/// The operations that are announced.
#[derive(Clone, Copy, Debug, PartialEq, Eq, Structural)]
pub enum Operation {
    CreateListing,
    UpdatePrice,
    PauseListing,
    UnpauseListing,
    BuyListing,
    RemoveListing,
}

impl Operation {
    /// The name under which the operation is announced.
    pub open spec fn spec_name(self) -> Seq<char> {
        match self {
            Operation::CreateListing => "create_listing"@,
            Operation::UpdatePrice => "update_price"@,
            Operation::PauseListing => "pause_listing"@,
            Operation::UnpauseListing => "unpause_listing"@,
            Operation::BuyListing => "buy_listing"@,
            Operation::RemoveListing => "remove_listing"@,
        }
    }

    /// The name under which the operation is announced.
    pub fn name(&self) -> (name: &'static str)
        ensures
            name@ == self.spec_name(),
    {
        match self {
            Operation::CreateListing => "create_listing",
            Operation::UpdatePrice => "update_price",
            Operation::PauseListing => "pause_listing",
            Operation::UnpauseListing => "unpause_listing",
            Operation::BuyListing => "buy_listing",
            Operation::RemoveListing => "remove_listing",
        }
    }
}

/// The announcement that `actor` carried out `operation` on the listing `payload`.
#[derive(Clone, Copy, Debug, PartialEq, Eq, Structural)]
pub struct Event {
    pub operation: Operation,
    pub actor: Identity,
    pub payload: u64,
}

/// The announcements made so far, oldest first.
#[derive(Debug)]
pub struct EventLog {
    entries: Vec<Event>,
}

impl View for EventLog {
    type V = Seq<Event>;

    closed spec fn view(&self) -> Seq<Event> {
        self.entries@
    }
}

impl EventLog {
    /// A log without announcements.
    pub fn new() -> (log: EventLog)
        ensures
            log@ == Seq::<Event>::empty(),
    {
        EventLog { entries: Vec::new() }
    }

    /// Appends `event`.
    pub fn emit(&mut self, event: Event)
        ensures
            final(self)@ == old(self)@.push(event),
    {
        self.entries.push(event);
    }

    /// The number of announcements.
    pub fn len(&self) -> (len: usize)
        ensures
            len == self@.len(),
    {
        self.entries.len()
    }

    /// The announcement at `index`, counted from the oldest.
    pub fn get(&self, index: usize) -> (event: Option<Event>)
        ensures
            event == if index < self@.len() {
                Some(self@[index as int])
            } else {
                None
            },
    {
        if index < self.entries.len() {
            Some(self.entries[index])
        } else {
            None
        }
    }

    /// The latest announcement.
    pub fn last(&self) -> (event: Option<Event>)
        ensures
            event == if self@.len() > 0 {
                Some(self@.last())
            } else {
                None
            },
    {
        let len = self.entries.len();
        if len > 0 {
            Some(self.entries[len - 1])
        } else {
            None
        }
    }
}

} // verus!
