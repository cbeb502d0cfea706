//! The custody and settlement adapter: the only door through which the marketplace moves
//! assets. A move that the paying side cannot cover is refused as a whole.

use crate::error::Error;
use crate::identity::{AssetRef, Identity};
use crate::ledger::{Ledger, Transfer};
use vstd::prelude::*;

verus! {

/// The marketplace's custody: the account in which listed assets wait for a buyer.
#[derive(Clone, Copy, Debug, PartialEq, Eq, Structural)]
pub struct Custody {
    /// The identity under which escrowed assets are held.
    pub custodian: Identity,
}

impl Custody {
    /// The custody that holds assets under `custodian`.
    pub fn new(custodian: Identity) -> (custody: Custody)
        ensures
            custody.custodian == custodian,
    {
        Custody { custodian }
    }

    /// Takes `quantity` units of `asset` from `from` into custody.
    ///
    /// Refused with `InsufficientBalance`, and without effect, unless `from` covers the
    /// quantity.
    pub fn hold(
        &self,
        ledger: &mut Ledger,
        asset: AssetRef,
        from: Identity,
        quantity: i128,
    ) -> (result: Result<(), Error>)
        requires
            old(ledger).wf(),
        ensures
            final(ledger).wf(),
            result == if 0 <= quantity <= old(ledger)@[(asset, from)] {
                Ok::<(), Error>(())
            } else {
                Err(Error::InsufficientBalance)
            },
            result is Ok ==> {
                let made = Transfer { asset, from, to: self.custodian, amount: quantity };
                &&& final(ledger)@ == made.apply(old(ledger)@)
                &&& final(ledger).journal() == old(ledger).journal().push(made)
            },
            result is Err ==> final(ledger)@ == old(ledger)@ && final(ledger).journal() == old(
                ledger,
            ).journal(),
            forall|other: AssetRef| #[trigger]
                final(ledger).supply(other) == old(ledger).supply(other),
    {
        ledger.transfer(asset, from, self.custodian, quantity)
    }

    /// Hands `quantity` units of `asset` out of custody to `to`.
    ///
    /// Refused with `InsufficientBalance`, and without effect, unless custody covers the
    /// quantity.
    pub fn release(
        &self,
        ledger: &mut Ledger,
        asset: AssetRef,
        to: Identity,
        quantity: i128,
    ) -> (result: Result<(), Error>)
        requires
            old(ledger).wf(),
        ensures
            final(ledger).wf(),
            result == if 0 <= quantity <= old(ledger)@[(asset, self.custodian)] {
                Ok::<(), Error>(())
            } else {
                Err(Error::InsufficientBalance)
            },
            result is Ok ==> {
                let made = Transfer { asset, from: self.custodian, to, amount: quantity };
                &&& final(ledger)@ == made.apply(old(ledger)@)
                &&& final(ledger).journal() == old(ledger).journal().push(made)
            },
            result is Err ==> final(ledger)@ == old(ledger)@ && final(ledger).journal() == old(
                ledger,
            ).journal(),
            forall|other: AssetRef| #[trigger]
                final(ledger).supply(other) == old(ledger).supply(other),
    {
        ledger.transfer(asset, self.custodian, to, quantity)
    }
}

/// Pays `amount` units of `asset` from `from` straight to `to`; custody is not involved.
///
/// Refused with `InsufficientBalance`, and without effect, unless `from` covers the amount.
pub fn settle_payment(
    ledger: &mut Ledger,
    asset: AssetRef,
    from: Identity,
    to: Identity,
    amount: i128,
) -> (result: Result<(), Error>)
    requires
        old(ledger).wf(),
    ensures
        final(ledger).wf(),
        result == if 0 <= amount <= old(ledger)@[(asset, from)] {
            Ok::<(), Error>(())
        } else {
            Err(Error::InsufficientBalance)
        },
        result is Ok ==> {
            let made = Transfer { asset, from, to, amount };
            &&& final(ledger)@ == made.apply(old(ledger)@)
            &&& final(ledger).journal() == old(ledger).journal().push(made)
        },
        result is Err ==> final(ledger)@ == old(ledger)@ && final(ledger).journal() == old(
            ledger,
        ).journal(),
        forall|other: AssetRef| #[trigger] final(ledger).supply(other) == old(ledger).supply(other),
{
    ledger.transfer(asset, from, to, amount)
}

} // verus!
