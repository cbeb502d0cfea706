//! The marketplace as a state machine over mathematical values.
//!
//! A [`World`] is everything an operation can read or change: the marketplace's own records,
//! the balances it settles against, and the notifications it has sent. For every operation
//! there is a verdict, which says whether the call goes through and with which error it is
//! turned away, and the world in which a call that went through ends. A call that is turned
//! away ends in the world in which it began. [`World::step`] puts the two together, and
//! [`World::run`] makes one call after another.

use crate::auth::{authorizes, Authorization, Invocation};
use crate::config::Config;
use crate::error::Error;
use crate::events::{Event, Operation};
use crate::identity::{AssetRef, Identity};
use crate::ledger::{moved, valid_balances, Balances, Transfer};
use crate::registry::{offer_error, valid_listings, Listing};
use crate::request::{Reply, Request};
use vstd::prelude::*;

verus! {

/// The marketplace's own records.
#[verifier::ext_equal]
pub struct MarketView {
    /// The identity under which escrowed assets are held.
    pub custodian: Identity,
    /// The configuration, once written.
    pub config: Option<Config>,
    /// The identifier that was assigned last; zero when none was.
    pub next_id: u64,
    /// The listings on record, by identifier.
    pub listings: Map<u64, Listing>,
}

impl MarketView {
    /// The records of a marketplace that has not been configured.
    pub open spec fn fresh(custodian: Identity) -> MarketView {
        MarketView { custodian, config: None, next_id: 0, listings: Map::empty() }
    }

    /// What holds of the records at all times: a stored configuration is marked initialized;
    /// without configuration there are no listings; every listing is stored under its own
    /// identifier with a positive price and quantity; and every identifier on record was
    /// assigned, so it lies between one and the counter.
    pub open spec fn wf(self) -> bool {
        &&& self.config matches Some(config) ==> config.initialized
        &&& self.config is None ==> self.listings == Map::<u64, Listing>::empty()
        &&& valid_listings(self.listings)
        &&& forall|id: u64| #[trigger] self.listings.contains_key(id) ==> 1 <= id <= self.next_id
    }

    /// `initialize` goes through exactly when no configuration is stored.
    pub open spec fn initialize_verdict(self) -> Result<(), Error> {
        if self.config is Some {
            Err(Error::AlreadyInitialized)
        } else {
            Ok(())
        }
    }

    /// The configuration is written and the counter stands at zero.
    pub open spec fn after_initialize(
        self,
        payment_asset: AssetRef,
        admin: Identity,
    ) -> MarketView {
        MarketView {
            config: Some(Config { payment_asset, admin, initialized: true }),
            next_id: 0,
            ..self
        }
    }

    /// The identity that has to sanction `invocation`: the owner of a new listing, the
    /// buyer, or the owner of the listing that is to be changed or removed; nobody, where
    /// there is no such listing.
    pub open spec fn signer(self, invocation: Invocation) -> Option<Identity> {
        match invocation {
            Invocation::CreateListing { owner, .. } => Some(owner),
            Invocation::BuyListing { buyer, .. } => Some(buyer),
            Invocation::UpdatePrice { id, .. }
            | Invocation::PauseListing { id }
            | Invocation::UnpauseListing { id }
            | Invocation::RemoveListing { id } => if self.listings.contains_key(id) {
                Some(self.listings[id].owner)
            } else {
                None
            },
        }
    }

    /// The accounts whose balances `request` looks at or changes.
    pub open spec fn accounts(self, request: Request) -> Set<(AssetRef, Identity)> {
        match request {
            Request::Guarded(Invocation::CreateListing { owner, asset, .. }) => set![
                (asset, owner),
                (asset, self.custodian),
            ],
            Request::Guarded(Invocation::BuyListing { buyer, id }) => if self.config is Some
                && self.listings.contains_key(id) {
                set![
                    (self.config->0.payment_asset, buyer),
                    (self.config->0.payment_asset, self.listings[id].owner),
                    (self.listings[id].asset, self.custodian),
                    (self.listings[id].asset, buyer),
                ]
            } else {
                Set::empty()
            },
            Request::Guarded(Invocation::RemoveListing { id }) => {
                if self.listings.contains_key(id) {
                    set![
                        (self.listings[id].asset, self.custodian),
                        (self.listings[id].asset, self.listings[id].owner),
                    ]
                } else {
                    Set::empty()
                }
            },
            _ => Set::empty(),
        }
    }

    /// The transfer by which `quantity` units of `asset` go from `owner` into custody.
    pub open spec fn escrow_transfer(
        self,
        owner: Identity,
        asset: AssetRef,
        quantity: i128,
    ) -> Transfer {
        Transfer { asset, from: owner, to: self.custodian, amount: quantity }
    }

    /// The transfer by which `buyer` pays the owner of listing `id` the price of the lot.
    pub open spec fn payment_transfer(self, buyer: Identity, id: u64) -> Transfer {
        Transfer {
            asset: self.config->0.payment_asset,
            from: buyer,
            to: self.listings[id].owner,
            amount: self.listings[id].total() as i128,
        }
    }

    /// The transfer by which the lot of listing `id` goes from custody to `to`.
    pub open spec fn release_transfer(self, id: u64, to: Identity) -> Transfer {
        Transfer {
            asset: self.listings[id].asset,
            from: self.custodian,
            to,
            amount: self.listings[id].quantity,
        }
    }

    /// The transfers that `request` makes when it goes through, in the order in which it
    /// makes them.
    pub open spec fn transfers(self, request: Request) -> Seq<Transfer> {
        match request {
            Request::Guarded(Invocation::CreateListing { owner, asset, quantity, .. }) => seq![
                self.escrow_transfer(owner, asset, quantity),
            ],
            Request::Guarded(Invocation::BuyListing { buyer, id }) => seq![
                self.payment_transfer(buyer, id),
                self.release_transfer(id, buyer),
            ],
            Request::Guarded(Invocation::RemoveListing { id }) => seq![
                self.release_transfer(id, self.listings[id].owner),
            ],
            _ => Seq::empty(),
        }
    }

    /// `get_listing` needs a configured marketplace and then reports the listing, or that
    /// there is none.
    pub open spec fn get_listing_verdict(self, id: u64) -> Result<Option<Listing>, Error> {
        if self.config is None {
            Err(Error::NotInitialized)
        } else if self.listings.contains_key(id) {
            Ok(Some(self.listings[id]))
        } else {
            Ok(None)
        }
    }
}

/// What the listing stored under `id` offers of `asset`; nothing, if there is no such listing
/// or it offers another asset.
pub open spec fn offered(listings: Map<u64, Listing>, asset: AssetRef, id: u64) -> int {
    if listings.contains_key(id) && listings[id].asset == asset {
        listings[id].quantity as int
    } else {
        0
    }
}

/// What the listings with identifiers up to `upto` offer of `asset`, taken together.
pub open spec fn escrowed(listings: Map<u64, Listing>, asset: AssetRef, upto: nat) -> int
    decreases upto,
{
    if upto == 0 {
        0
    } else {
        escrowed(listings, asset, (upto - 1) as nat) + offered(listings, asset, upto as u64)
    }
}

/// The marketplace and what surrounds it.
#[verifier::ext_equal]
pub struct World {
    pub market: MarketView,
    /// What every holder owns of every asset.
    pub balances: Balances,
    /// The notifications sent so far, oldest first.
    pub events: Seq<Event>,
}

impl World {
    /// The records are well-formed and nobody is in debt.
    pub open spec fn wf(self) -> bool {
        &&& self.market.wf()
        &&& valid_balances(self.balances)
    }

    /// What custody holds of `asset`.
    pub open spec fn escrow(self, asset: AssetRef) -> int {
        self.balances[(asset, self.market.custodian)]
    }

    /// Custody holds, of every asset, at least what the listings on record offer of it.
    pub open spec fn solvent(self) -> bool {
        forall|asset: AssetRef| #[trigger]
            self.escrow(asset) >= escrowed(self.market.listings, asset, self.market.next_id as nat)
    }

    // ----- create_listing -----

    /// The checks of `create_listing`, in the order in which they are made: configuration,
    /// price, quantity, the owner's authorization, the owner's balance. The identifier of
    /// the new listing is the successor of the counter.
    pub open spec fn create_listing_verdict(
        self,
        auth: Seq<Authorization>,
        owner: Identity,
        asset: AssetRef,
        price: i128,
        quantity: i128,
    ) -> Result<u64, Error> {
        if self.market.config is None {
            Err(Error::NotInitialized)
        } else if offer_error(price, quantity) is Some {
            Err(offer_error(price, quantity)->0)
        } else if !authorizes(
            auth,
            owner,
            Invocation::CreateListing { owner, asset, price, quantity },
        ) {
            Err(Error::Unauthorized)
        } else if self.balances[(asset, owner)] < quantity {
            Err(Error::InsufficientBalance)
        } else {
            Ok((self.market.next_id + 1) as u64)
        }
    }

    /// The quantity has gone from the owner into custody, the listing is on record as
    /// active, the counter has advanced, and the creation is announced.
    pub open spec fn after_create_listing(
        self,
        owner: Identity,
        asset: AssetRef,
        price: i128,
        quantity: i128,
    ) -> World {
        let id = (self.market.next_id + 1) as u64;
        World {
            market: MarketView {
                next_id: id,
                listings: self.market.listings.insert(
                    id,
                    Listing { id, owner, asset, price, quantity, listed: true },
                ),
                ..self.market
            },
            balances: moved(self.balances, asset, owner, self.market.custodian, quantity as int),
            events: self.events.push(
                Event { operation: Operation::CreateListing, actor: owner, payload: id },
            ),
        }
    }

    // ----- update_price -----

    /// The checks of `update_price`, in the order in which they are made: configuration, the
    /// listing's existence, its owner's authorization, the new price.
    pub open spec fn update_price_verdict(
        self,
        auth: Seq<Authorization>,
        id: u64,
        new_price: i128,
    ) -> Result<(), Error> {
        if self.market.config is None {
            Err(Error::NotInitialized)
        } else if !self.market.listings.contains_key(id) {
            Err(Error::NotFound)
        } else if !authorizes(
            auth,
            self.market.listings[id].owner,
            Invocation::UpdatePrice { id, new_price },
        ) {
            Err(Error::Unauthorized)
        } else if new_price <= 0 {
            Err(Error::InvalidPrice)
        } else {
            Ok(())
        }
    }

    /// The listing carries the new price, and the update is announced in its owner's name.
    pub open spec fn after_update_price(self, id: u64, new_price: i128) -> World {
        let listing = self.market.listings[id];
        World {
            market: MarketView {
                listings: self.market.listings.insert(id, Listing { price: new_price, ..listing }),
                ..self.market
            },
            events: self.events.push(
                Event { operation: Operation::UpdatePrice, actor: listing.owner, payload: id },
            ),
            ..self
        }
    }

    // ----- pause_listing, unpause_listing -----

    /// The call that sets the flag of listing `id` to `listed`.
    pub open spec fn listed_invocation(id: u64, listed: bool) -> Invocation {
        if listed {
            Invocation::UnpauseListing { id }
        } else {
            Invocation::PauseListing { id }
        }
    }

    /// The operation that sets a listing's flag to `listed`.
    pub open spec fn listed_operation(listed: bool) -> Operation {
        if listed {
            Operation::UnpauseListing
        } else {
            Operation::PauseListing
        }
    }

    /// The checks of `pause_listing` (`listed` is `false`) and `unpause_listing` (`listed`
    /// is `true`), in the order in which they are made: configuration, the listing's
    /// existence, its owner's authorization.
    pub open spec fn set_listed_verdict(
        self,
        auth: Seq<Authorization>,
        id: u64,
        listed: bool,
    ) -> Result<(), Error> {
        if self.market.config is None {
            Err(Error::NotInitialized)
        } else if !self.market.listings.contains_key(id) {
            Err(Error::NotFound)
        } else if !authorizes(
            auth,
            self.market.listings[id].owner,
            Self::listed_invocation(id, listed),
        ) {
            Err(Error::Unauthorized)
        } else {
            Ok(())
        }
    }

    /// The listing's flag is `listed`, and the change is announced in its owner's name.
    pub open spec fn after_set_listed(self, id: u64, listed: bool) -> World {
        let listing = self.market.listings[id];
        World {
            market: MarketView {
                listings: self.market.listings.insert(id, Listing { listed, ..listing }),
                ..self.market
            },
            events: self.events.push(
                Event {
                    operation: Self::listed_operation(listed),
                    actor: listing.owner,
                    payload: id,
                },
            ),
            ..self
        }
    }

    // ----- buy_listing -----

    /// The balances once the buyer has paid the owner the price of the whole lot.
    pub open spec fn paid(self, buyer: Identity, id: u64) -> Balances {
        let listing = self.market.listings[id];
        moved(
            self.balances,
            self.market.config->0.payment_asset,
            buyer,
            listing.owner,
            listing.total(),
        )
    }

    /// The checks of `buy_listing`, in the order in which they are made: configuration, the
    /// listing's existence, that it is not paused, the buyer's authorization, that the buyer
    /// covers price times quantity, and that custody covers the quantity once the payment is
    /// made.
    pub open spec fn buy_listing_verdict(
        self,
        auth: Seq<Authorization>,
        buyer: Identity,
        id: u64,
    ) -> Result<(), Error> {
        if self.market.config is None {
            Err(Error::NotInitialized)
        } else if !self.market.listings.contains_key(id) {
            Err(Error::NotFound)
        } else if !self.market.listings[id].listed {
            Err(Error::NotListed)
        } else if !authorizes(auth, buyer, Invocation::BuyListing { buyer, id }) {
            Err(Error::Unauthorized)
        } else if self.balances[(self.market.config->0.payment_asset, buyer)]
            < self.market.listings[id].total() {
            Err(Error::InsufficientBalance)
        } else if self.paid(buyer, id)[(self.market.listings[id].asset, self.market.custodian)]
            < self.market.listings[id].quantity {
            Err(Error::InsufficientBalance)
        } else {
            Ok(())
        }
    }

    /// The buyer has paid the owner, custody has handed the lot to the buyer, the listing is
    /// gone, and the purchase is announced in the buyer's name.
    pub open spec fn after_buy_listing(self, buyer: Identity, id: u64) -> World {
        let listing = self.market.listings[id];
        World {
            market: MarketView { listings: self.market.listings.remove(id), ..self.market },
            balances: moved(
                self.paid(buyer, id),
                listing.asset,
                self.market.custodian,
                buyer,
                listing.quantity as int,
            ),
            events: self.events.push(
                Event { operation: Operation::BuyListing, actor: buyer, payload: id },
            ),
        }
    }

    // ----- remove_listing -----

    /// The checks of `remove_listing`, in the order in which they are made: configuration, the
    /// listing's existence, its owner's authorization, and that custody covers the quantity.
    pub open spec fn remove_listing_verdict(self, auth: Seq<Authorization>, id: u64) -> Result<
        (),
        Error,
    > {
        if self.market.config is None {
            Err(Error::NotInitialized)
        } else if !self.market.listings.contains_key(id) {
            Err(Error::NotFound)
        } else if !authorizes(
            auth,
            self.market.listings[id].owner,
            Invocation::RemoveListing { id },
        ) {
            Err(Error::Unauthorized)
        } else if self.escrow(self.market.listings[id].asset) < self.market.listings[id].quantity {
            Err(Error::InsufficientBalance)
        } else {
            Ok(())
        }
    }

    /// Custody has handed the lot back to the owner, the listing is gone, and the removal is
    /// announced in the owner's name.
    pub open spec fn after_remove_listing(self, id: u64) -> World {
        let listing = self.market.listings[id];
        World {
            market: MarketView { listings: self.market.listings.remove(id), ..self.market },
            balances: moved(
                self.balances,
                listing.asset,
                self.market.custodian,
                listing.owner,
                listing.quantity as int,
            ),
            events: self.events.push(
                Event { operation: Operation::RemoveListing, actor: listing.owner, payload: id },
            ),
        }
    }

    // ----- one call after another -----

    /// The verdict on a guarded call, as what its caller is told.
    pub open spec fn guarded_verdict(
        self,
        auth: Seq<Authorization>,
        invocation: Invocation,
    ) -> Result<Reply, Error> {
        match invocation {
            Invocation::CreateListing {
                owner,
                asset,
                price,
                quantity,
            } => match self.create_listing_verdict(auth, owner, asset, price, quantity) {
                Ok(id) => Ok(Reply::Created(id)),
                Err(error) => Err(error),
            },
            Invocation::UpdatePrice { id, new_price } => match self.update_price_verdict(
                auth,
                id,
                new_price,
            ) {
                Ok(_) => Ok(Reply::Done),
                Err(error) => Err(error),
            },
            Invocation::PauseListing { id } => match self.set_listed_verdict(auth, id, false) {
                Ok(_) => Ok(Reply::Done),
                Err(error) => Err(error),
            },
            Invocation::UnpauseListing { id } => match self.set_listed_verdict(auth, id, true) {
                Ok(_) => Ok(Reply::Done),
                Err(error) => Err(error),
            },
            Invocation::BuyListing { buyer, id } => match self.buy_listing_verdict(
                auth,
                buyer,
                id,
            ) {
                Ok(_) => Ok(Reply::Done),
                Err(error) => Err(error),
            },
            Invocation::RemoveListing { id } => match self.remove_listing_verdict(auth, id) {
                Ok(_) => Ok(Reply::Done),
                Err(error) => Err(error),
            },
        }
    }

    /// The world in which a guarded call that went through ends.
    pub open spec fn after_guarded(self, invocation: Invocation) -> World {
        match invocation {
            Invocation::CreateListing { owner, asset, price, quantity } => {
                self.after_create_listing(owner, asset, price, quantity)
            },
            Invocation::UpdatePrice { id, new_price } => self.after_update_price(id, new_price),
            Invocation::PauseListing { id } => self.after_set_listed(id, false),
            Invocation::UnpauseListing { id } => self.after_set_listed(id, true),
            Invocation::BuyListing { buyer, id } => self.after_buy_listing(buyer, id),
            Invocation::RemoveListing { id } => self.after_remove_listing(id),
        }
    }

    /// The world after `request`, made with `auth` established, and what the caller is told.
    pub open spec fn step(self, auth: Seq<Authorization>, request: Request) -> (
        World,
        Result<Reply, Error>,
    ) {
        match request {
            Request::Initialize { payment_asset, admin } => match self.market.initialize_verdict() {
                Ok(_) => (
                    World { market: self.market.after_initialize(payment_asset, admin), ..self },
                    Ok(Reply::Done),
                ),
                Err(error) => (self, Err(error)),
            },
            Request::GetListing { id } => match self.market.get_listing_verdict(id) {
                Ok(listing) => (self, Ok(Reply::Found(listing))),
                Err(error) => (self, Err(error)),
            },
            Request::Guarded(invocation) => match self.guarded_verdict(auth, invocation) {
                Ok(reply) => (self.after_guarded(invocation), Ok(reply)),
                Err(error) => (self, Err(error)),
            },
        }
    }

    /// The world after `commands`, made one after the other.
    pub open spec fn run(self, commands: Seq<Command>) -> World
        decreases commands.len(),
    {
        if commands.len() == 0 {
            self
        } else {
            self.run(commands.drop_last()).step(commands.last().auth, commands.last().request).0
        }
    }

    /// The identifiers that the creations among `commands` returned, in call order.
    pub open spec fn created(self, commands: Seq<Command>) -> Seq<u64>
        decreases commands.len(),
    {
        if commands.len() == 0 {
            Seq::empty()
        } else {
            let earlier = self.created(commands.drop_last());
            match self.run(commands.drop_last()).step(
                commands.last().auth,
                commands.last().request,
            ).1 {
                Ok(Reply::Created(id)) => earlier.push(id),
                _ => earlier,
            }
        }
    }
}

/// A call together with what the verifier established for it.
pub struct Command {
    pub auth: Seq<Authorization>,
    pub request: Request,
}

} // verus!
