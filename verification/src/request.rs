//! What can be asked of the marketplace, and what it answers.

use crate::auth::Invocation;
use crate::identity::{AssetRef, Identity};
use crate::registry::Listing;
use vstd::prelude::*;

verus! {

/// A call of one of the marketplace's operations.
#[derive(Clone, Copy, Debug, PartialEq, Eq, Structural)]
pub enum Request {
    /// `initialize`, which nobody has to sanction.
    Initialize { payment_asset: AssetRef, admin: Identity },
    /// `get_listing`, which nobody has to sanction.
    GetListing { id: u64 },
    /// One of the operations that somebody has to sanction.
    Guarded(Invocation),
}

impl Request {
    /// The identifier of the listing that the call is about; `None` for `initialize` and
    /// for a creation, whose listing does not exist yet.
    pub open spec fn spec_listing(self) -> Option<u64> {
        match self {
            Request::Initialize { .. } => None,
            Request::GetListing { id } => Some(id),
            Request::Guarded(Invocation::CreateListing { .. }) => None,
            Request::Guarded(Invocation::UpdatePrice { id, .. }) => Some(id),
            Request::Guarded(Invocation::PauseListing { id }) => Some(id),
            Request::Guarded(Invocation::UnpauseListing { id }) => Some(id),
            Request::Guarded(Invocation::BuyListing { id, .. }) => Some(id),
            Request::Guarded(Invocation::RemoveListing { id }) => Some(id),
        }
    }

    /// The identifier of the listing that the call is about; `None` for `initialize` and
    /// for a creation, whose listing does not exist yet.
    pub fn listing(&self) -> (id: Option<u64>)
        ensures
            id == self.spec_listing(),
    {
        match self {
            Request::Initialize { .. } => None,
            Request::GetListing { id } => Some(*id),
            Request::Guarded(Invocation::CreateListing { .. }) => None,
            Request::Guarded(Invocation::UpdatePrice { id, .. }) => Some(*id),
            Request::Guarded(Invocation::PauseListing { id }) => Some(*id),
            Request::Guarded(Invocation::UnpauseListing { id }) => Some(*id),
            Request::Guarded(Invocation::BuyListing { id, .. }) => Some(*id),
            Request::Guarded(Invocation::RemoveListing { id }) => Some(*id),
        }
    }

    /// The identity from whose account the call would take assets: the owner of a new
    /// listing, or the buyer.
    pub open spec fn payer(self) -> Option<Identity> {
        match self {
            Request::Guarded(Invocation::CreateListing { owner, .. }) => Some(owner),
            Request::Guarded(Invocation::BuyListing { buyer, .. }) => Some(buyer),
            _ => None,
        }
    }
}

/// What the caller of a call that went through is told.
#[derive(Clone, Copy, Debug, PartialEq, Eq)]
pub enum Reply {
    /// The operation returns nothing.
    Done,
    /// The identifier of the listing that was created.
    Created(u64),
    /// The listing that was asked for, or `None` when there is none.
    Found(Option<Listing>),
}

} // verus!
