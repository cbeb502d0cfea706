//! The authorization guard: did the required identity sanction exactly this call?
//!
//! Proving who sanctioned what is the business of a verifier outside the marketplace. What
//! that verifier has established for the invocation at hand arrives here as an
//! [`AuthorizationContext`]; the guard only looks for the entry that it needs.

use crate::error::Error;
use crate::identity::{AssetRef, Identity};
use vstd::prelude::*;

verus! {

/// A call of one guarded operation, with the arguments it was made with.
#[derive(Clone, Copy, Debug, PartialEq, Eq, Structural)]
pub enum Invocation {
    CreateListing { owner: Identity, asset: AssetRef, price: i128, quantity: i128 },
    UpdatePrice { id: u64, new_price: i128 },
    PauseListing { id: u64 },
    UnpauseListing { id: u64 },
    BuyListing { buyer: Identity, id: u64 },
    RemoveListing { id: u64 },
}

/// The verified fact that `identity` sanctioned `invocation`, arguments included.
#[derive(Clone, Copy, Debug, PartialEq, Eq, Structural)]
pub struct Authorization {
    pub identity: Identity,
    pub invocation: Invocation,
}

/// `verified` holds the fact that `identity` sanctioned exactly `invocation`.
pub open spec fn authorizes(
    verified: Seq<Authorization>,
    identity: Identity,
    invocation: Invocation,
) -> bool {
    verified.contains(Authorization { identity, invocation })
}

/// What the verifier has established for the call at hand.
#[derive(Debug)]
pub struct AuthorizationContext {
    verified: Vec<Authorization>,
}

impl View for AuthorizationContext {
    type V = Seq<Authorization>;

    closed spec fn view(&self) -> Seq<Authorization> {
        self.verified@
    }
}

impl AuthorizationContext {
    /// A context in which nobody sanctioned anything.
    pub fn new() -> (context: AuthorizationContext)
        ensures
            context@ == Seq::<Authorization>::empty(),
    {
        AuthorizationContext { verified: Vec::new() }
    }

    /// A context that holds one fact: `identity` sanctioned `invocation`.
    pub fn of(identity: Identity, invocation: Invocation) -> (context: AuthorizationContext)
        ensures
            context@ == seq![Authorization { identity, invocation }],
    {
        let mut verified = Vec::new();
        verified.push(Authorization { identity, invocation });
        AuthorizationContext { verified }
    }

    /// Records that the verifier found `identity` to have sanctioned `invocation`.
    pub fn record(&mut self, identity: Identity, invocation: Invocation)
        ensures
            final(self)@ == old(self)@.push(Authorization { identity, invocation }),
    {
        self.verified.push(Authorization { identity, invocation });
    }

    /// Passes exactly when `identity` sanctioned `invocation`, with these very arguments.
    pub fn require(&self, identity: Identity, invocation: Invocation) -> (result: Result<
        (),
        Error,
    >)
        ensures
            result == if authorizes(self@, identity, invocation) {
                Ok::<(), Error>(())
            } else {
                Err(Error::Unauthorized)
            },
    {
        let wanted = Authorization { identity, invocation };
        let mut at: usize = 0;
        while at < self.verified.len()
            invariant
                at <= self.verified.len(),
                wanted == (Authorization { identity, invocation }),
                forall|k: int| 0 <= k < at ==> self.verified@[k] != wanted,
            decreases self.verified.len() - at,
        {
            if self.verified[at] == wanted {
                assert(self@[at as int] == wanted);
                return Ok(());
            }
            at += 1;
        }
        Err(Error::Unauthorized)
    }
}

} // verus!
