//! The listing registry: the records of what is for sale.

use crate::config::ConfigStore;
use crate::config::StoreState;
use crate::error::Error;
use crate::identity::{AssetRef, Identity};
use std::collections::HashMap;
use vstd::prelude::*;

verus! {

broadcast use vstd::std_specs::hash::group_hash_axioms;

/// An offer of `quantity` units of `asset` at `price` per unit.
#[derive(Clone, Copy, Debug, PartialEq, Eq, Structural)]
pub struct Listing {
    pub id: u64,
    pub owner: Identity,
    pub asset: AssetRef,
    /// The price of one unit, in the payment asset.
    pub price: i128,
    pub quantity: i128,
    /// `false` while the listing is paused.
    pub listed: bool,
}

impl Listing {
    /// What a buyer pays for the whole lot.
    pub open spec fn total(self) -> int {
        self.price * self.quantity
    }
}

/// A change to a stored listing.
#[derive(Clone, Copy, Debug, PartialEq, Eq, Structural)]
pub enum Mutation {
    /// Replace the per-unit price.
    SetPrice(i128),
    /// Pause (`false`) or resume (`true`) the listing.
    SetListed(bool),
}

impl Mutation {
    /// A price that is set must be positive.
    pub open spec fn valid(self) -> bool {
        self matches Mutation::SetPrice(price) ==> price > 0
    }

    /// `listing` after the change.
    pub open spec fn apply(self, listing: Listing) -> Listing {
        match self {
            Mutation::SetPrice(price) => Listing { price, ..listing },
            Mutation::SetListed(listed) => Listing { listed, ..listing },
        }
    }
}

/// Every record is stored under its own identifier, with a positive price and quantity.
pub open spec fn valid_listings(listings: Map<u64, Listing>) -> bool {
    forall|id: u64| #[trigger]
        listings.contains_key(id) ==> {
            &&& listings[id].id == id
            &&& listings[id].price > 0
            &&& listings[id].quantity > 0
        }
}

/// The records in `listings`, by identifier. Where two share an identifier, the later one
/// counts.
pub open spec fn by_id(listings: Seq<Listing>) -> Map<u64, Listing>
    decreases listings.len(),
{
    if listings.len() == 0 {
        Map::empty()
    } else {
        by_id(listings.drop_last()).insert(listings.last().id, listings.last())
    }
}

/// Every record has a positive price and quantity, and no two share an identifier.
pub open spec fn valid_records(listings: Seq<Listing>) -> bool {
    &&& forall|i: int|
        0 <= i < listings.len() ==> (#[trigger] listings[i]).price > 0 && listings[i].quantity > 0
    &&& forall|i: int, j: int|
        0 <= i < j < listings.len() ==> (#[trigger] listings[i]).id != (#[trigger] listings[j]).id
}

/// The records of `listings` are exactly what `by_id` stores, each under its identifier.
pub proof fn lemma_by_id(listings: Seq<Listing>)
    ensures
        forall|i: int|
            0 <= i < listings.len() ==> by_id(listings).contains_key((#[trigger] listings[i]).id),
        forall|id: u64| #[trigger]
            by_id(listings).contains_key(id) ==> by_id(listings)[id].id == id && exists|i: int|
                0 <= i < listings.len() && listings[i] == by_id(listings)[id],
    decreases listings.len(),
{
    if listings.len() > 0 {
        let earlier = listings.drop_last();
        lemma_by_id(earlier);
        assert forall|i: int| 0 <= i < listings.len() implies by_id(listings).contains_key(
            (#[trigger] listings[i]).id,
        ) by {
            if i < earlier.len() {
                assert(earlier[i] == listings[i]);
            }
        }
        assert forall|id: u64| #[trigger] by_id(listings).contains_key(id) implies by_id(
            listings,
        )[id].id == id && exists|i: int|
            0 <= i < listings.len() && listings[i] == by_id(listings)[id] by {
            if id == listings.last().id {
                assert(listings[listings.len() - 1] == by_id(listings)[id]);
            } else {
                assert(by_id(earlier).contains_key(id));
                let i = choose|i: int| 0 <= i < earlier.len() && earlier[i] == by_id(earlier)[id];
                assert(listings[i] == by_id(listings)[id]);
            }
        }
    }
}

/// The error for which a new listing at `price` and of `quantity` is turned away, if any.
pub open spec fn offer_error(price: i128, quantity: i128) -> Option<Error> {
    if price <= 0 {
        Some(Error::InvalidPrice)
    } else if quantity <= 0 {
        Some(Error::InvalidQuantity)
    } else {
        None
    }
}

/// Checks the terms of a new listing: the price first, then the quantity.
pub fn check_offer(price: i128, quantity: i128) -> (result: Result<(), Error>)
    ensures
        result == match offer_error(price, quantity) {
            Some(error) => Err::<(), Error>(error),
            None => Ok(()),
        },
{
    if price <= 0 {
        Err(Error::InvalidPrice)
    } else if quantity <= 0 {
        Err(Error::InvalidQuantity)
    } else {
        Ok(())
    }
}

/// The registry.
#[derive(Debug)]
pub struct ListingRegistry {
    listings: HashMap<u64, Listing>,
}

impl View for ListingRegistry {
    type V = Map<u64, Listing>;

    closed spec fn view(&self) -> Map<u64, Listing> {
        self.listings@
    }
}

impl ListingRegistry {
    /// An empty registry.
    pub fn new() -> (registry: ListingRegistry)
        ensures
            registry@ == Map::<u64, Listing>::empty(),
    {
        ListingRegistry { listings: HashMap::new() }
    }

    /// The registry that holds exactly the records in `listings`; `None` when a record has a
    /// price or quantity that is not positive, or when two records share an identifier.
    pub fn restore(listings: &Vec<Listing>) -> (registry: Option<ListingRegistry>)
        ensures
            match registry {
                Some(registry) => {
                    &&& valid_records(listings@)
                    &&& registry@ == by_id(listings@)
                    &&& valid_listings(registry@)
                },
                None => !valid_records(listings@),
            },
    {
        let mut stored: HashMap<u64, Listing> = HashMap::new();
        let mut at: usize = 0;
        while at < listings.len()
            invariant
                at <= listings.len(),
                valid_records(listings@.take(at as int)),
                stored@ == by_id(listings@.take(at as int)),
                valid_listings(stored@),
            decreases listings.len() - at,
        {
            let listing = listings[at];
            let ghost earlier = listings@.take(at as int);
            let ghost upto = listings@.take(at + 1);
            proof {
                assert(upto.drop_last() =~= earlier);
                assert(upto.last() == listing);
                lemma_by_id(earlier);
            }
            if listing.price <= 0 || listing.quantity <= 0 {
                return None;
            }
            if stored.contains_key(&listing.id) {
                proof {
                    let twin = choose|i: int|
                        0 <= i < earlier.len() && earlier[i] == by_id(earlier)[listing.id];
                    assert(listings@[twin].id == listings@[at as int].id);
                }
                return None;
            }
            stored.insert(listing.id, listing);
            proof {
                assert forall|i: int, j: int| 0 <= i < j < upto.len() implies (
                #[trigger] upto[i]).id != (#[trigger] upto[j]).id by {
                    if j == at {
                        assert(earlier[i] == upto[i]);
                        assert(by_id(earlier).contains_key(earlier[i].id));
                    } else {
                        assert(earlier[i] == upto[i] && earlier[j] == upto[j]);
                    }
                }
                assert forall|i: int| 0 <= i < upto.len() implies (#[trigger] upto[i]).price > 0
                    && upto[i].quantity > 0 by {
                    if i < at {
                        assert(earlier[i] == upto[i]);
                    }
                }
            }
            at += 1;
        }
        proof {
            assert(listings@.take(at as int) =~= listings@);
        }
        Some(ListingRegistry { listings: stored })
    }

    /// Stores a new, active listing under the identifier that follows the counter of `store`,
    /// and advances that counter.
    ///
    /// Refused with `InvalidPrice` for a price that is not positive, else with
    /// `InvalidQuantity` for a quantity that is not positive; nothing changes then.
    pub fn allocate_and_store(
        &mut self,
        store: &mut ConfigStore,
        owner: Identity,
        asset: AssetRef,
        price: i128,
        quantity: i128,
    ) -> (result: Result<u64, Error>)
        requires
            old(store)@.next_id < u64::MAX,
        ensures
            result == match offer_error(price, quantity) {
                Some(error) => Err::<u64, Error>(error),
                None => Ok((old(store)@.next_id + 1) as u64),
            },
            result matches Ok(id) ==> {
                &&& final(self)@ == old(self)@.insert(
                    id,
                    Listing { id, owner, asset, price, quantity, listed: true },
                )
                &&& final(store)@ == (StoreState { next_id: id, ..old(store)@ })
            },
            result is Err ==> final(self)@ == old(self)@ && final(store)@ == old(store)@,
    {
        match check_offer(price, quantity) {
            Err(error) => Err(error),
            Ok(()) => {
                let id = store.advance();
                self.listings.insert(
                    id,
                    Listing { id, owner, asset, price, quantity, listed: true },
                );
                Ok(id)
            },
        }
    }

    /// The listing stored under `id`, if there is one.
    pub fn load(&self, id: u64) -> (listing: Option<Listing>)
        ensures
            listing == if self@.contains_key(id) {
                Some(self@[id])
            } else {
                None
            },
    {
        match self.listings.get(&id) {
            Some(listing) => Some(*listing),
            None => None,
        }
    }

    /// Applies `change` to the listing stored under `id`.
    ///
    /// Refused with `NotFound` when nothing is stored under `id`, else with `InvalidPrice`
    /// when a price that is not positive would be set; nothing changes then.
    pub fn mutate(&mut self, id: u64, change: Mutation) -> (result: Result<(), Error>)
        ensures
            result == if !old(self)@.contains_key(id) {
                Err::<(), Error>(Error::NotFound)
            } else if !change.valid() {
                Err(Error::InvalidPrice)
            } else {
                Ok(())
            },
            result is Ok ==> final(self)@ == old(self)@.insert(id, change.apply(old(self)@[id])),
            result is Err ==> final(self)@ == old(self)@,
    {
        match self.load(id) {
            None => Err(Error::NotFound),
            Some(listing) => {
                let changed = match change {
                    Mutation::SetPrice(price) => {
                        if price <= 0 {
                            return Err(Error::InvalidPrice);
                        }
                        Listing {
                            id: listing.id,
                            owner: listing.owner,
                            asset: listing.asset,
                            price,
                            quantity: listing.quantity,
                            listed: listing.listed,
                        }
                    },
                    Mutation::SetListed(listed) => Listing {
                        id: listing.id,
                        owner: listing.owner,
                        asset: listing.asset,
                        price: listing.price,
                        quantity: listing.quantity,
                        listed,
                    },
                };
                self.listings.insert(id, changed);
                Ok(())
            },
        }
    }

    /// Deletes the listing stored under `id` and hands it back, if there is one.
    pub fn remove(&mut self, id: u64) -> (removed: Option<Listing>)
        ensures
            removed == if old(self)@.contains_key(id) {
                Some(old(self)@[id])
            } else {
                None
            },
            final(self)@ == old(self)@.remove(id),
    {
        self.listings.remove(&id)
    }
}

} // verus!
