//! The marketplace service: the public operations, each of which either goes through as a
//! whole or leaves everything as it was.

use crate::auth::{AuthorizationContext, Invocation};
use crate::config::{Config, ConfigStore};
use crate::custody::{settle_payment, Custody};
use crate::error::Error;
use crate::events::{Event, EventLog, Operation};
use crate::identity::{AssetRef, Identity};
use crate::ledger::{Ledger, Transfer};
use crate::model::{MarketView, World};
use crate::registry::{
    by_id, check_offer, lemma_by_id, valid_records, Listing, ListingRegistry, Mutation,
};
use crate::request::{Reply, Request};
use vstd::prelude::*;

verus! {

/// What surrounds the marketplace: the book it settles against and the log it announces to.
#[derive(Debug)]
pub struct Host {
    pub ledger: Ledger,
    pub events: EventLog,
}

impl Host {
    /// A host whose book and log are empty.
    pub fn new() -> (host: Host)
        ensures
            host.wf(),
            host.ledger.journal() == Seq::<Transfer>::empty(),
            forall|key: (AssetRef, Identity)| #[trigger] host.ledger@[key] == 0,
            forall|asset: AssetRef| #[trigger] host.ledger.supply(asset) == 0,
            host.events@ == Seq::<Event>::empty(),
    {
        Host { ledger: Ledger::new(), events: EventLog::new() }
    }

    /// The book is well-formed.
    pub open spec fn wf(&self) -> bool {
        self.ledger.wf()
    }
}

/// The marketplace.
#[derive(Debug)]
pub struct Marketplace {
    custody: Custody,
    store: ConfigStore,
    registry: ListingRegistry,
}

impl View for Marketplace {
    type V = MarketView;

    closed spec fn view(&self) -> MarketView {
        MarketView {
            custodian: self.custody.custodian,
            config: self.store@.config,
            next_id: self.store@.next_id,
            listings: self.registry@,
        }
    }
}

impl Marketplace {
    /// The records are well-formed. Every marketplace that this module hands out is.
    pub open spec fn wf(&self) -> bool {
        self@.wf()
    }

    /// The marketplace together with its surroundings.
    pub open spec fn world(&self, host: &Host) -> World {
        World { market: self@, balances: host.ledger@, events: host.events@ }
    }

    /// A marketplace that holds escrowed assets under `custodian` and is not yet configured.
    pub fn new(custodian: Identity) -> (market: Marketplace)
        ensures
            market.wf(),
            market@ == MarketView::fresh(custodian),
    {
        Marketplace {
            custody: Custody::new(custodian),
            store: ConfigStore::new(),
            registry: ListingRegistry::new(),
        }
    }

    /// The marketplace whose records are `config`, the counter `next_id`, and `listings`, as
    /// they were read back from where they are kept between calls. `None` when these are
    /// not the records of a marketplace: see [`MarketView::wf`] and [`valid_records`].
    pub fn restore(
        custodian: Identity,
        config: Option<Config>,
        next_id: u64,
        listings: &Vec<Listing>,
    ) -> (market: Option<Marketplace>)
        ensures
            match market {
                Some(market) => {
                    &&& market.wf()
                    &&& valid_records(listings@)
                    &&& market@ == (MarketView {
                        custodian,
                        config,
                        next_id,
                        listings: by_id(listings@),
                    })
                },
                None => !valid_records(listings@) || !(MarketView {
                    custodian,
                    config,
                    next_id,
                    listings: by_id(listings@),
                }).wf(),
            },
    {
        let store = match ConfigStore::restore(config, next_id) {
            Some(store) => store,
            None => {
                return None;
            },
        };
        let registry = match ListingRegistry::restore(listings) {
            Some(registry) => registry,
            None => {
                return None;
            },
        };
        proof {
            lemma_by_id(listings@);
        }
        if config.is_none() && listings.len() > 0 {
            assert(by_id(listings@).contains_key(listings@[0].id));
            return None;
        }
        let mut at: usize = 0;
        while at < listings.len()
            invariant
                at <= listings.len(),
                forall|i: int| 0 <= i < at ==> 1 <= (#[trigger] listings@[i]).id <= next_id,
                forall|i: int|
                    0 <= i < listings@.len() ==> by_id(listings@).contains_key(
                        (#[trigger] listings@[i]).id,
                    ),
            decreases listings.len() - at,
        {
            if listings[at].id < 1 || listings[at].id > next_id {
                assert(by_id(listings@).contains_key(listings@[at as int].id));
                return None;
            }
            at += 1;
        }
        proof {
            if config is None {
                assert(by_id(listings@) =~= Map::<u64, Listing>::empty());
            }
        }
        Some(Marketplace { custody: Custody::new(custodian), store, registry })
    }

    /// The identity under which escrowed assets are held.
    pub fn custodian(&self) -> (custodian: Identity)
        ensures
            custodian == self@.custodian,
    {
        self.custody.custodian
    }

    /// The configuration, once written.
    pub fn config(&self) -> (config: Option<Config>)
        ensures
            config == self@.config,
    {
        self.store.config()
    }

    /// The identifier that was assigned last; zero when none was.
    pub fn next_id(&self) -> (next_id: u64)
        ensures
            next_id == self@.next_id,
    {
        self.store.next_id()
    }

    /// Configures the marketplace: buyers pay in `payment_asset`, and `admin` administers.
    ///
    /// This goes through once. Every later call is refused with `AlreadyInitialized` and
    /// changes nothing.
    pub fn initialize(&mut self, payment_asset: AssetRef, admin: Identity) -> (result: Result<
        (),
        Error,
    >)
        requires
            old(self).wf(),
        ensures
            final(self).wf(),
            result == old(self)@.initialize_verdict(),
            final(self)@ == if result is Ok {
                old(self)@.after_initialize(payment_asset, admin)
            } else {
                old(self)@
            },
    {
        self.store.initialize(payment_asset, admin)
    }

    /// Lists `quantity` units of `asset` at `price` per unit on behalf of `owner`, takes the
    /// units into custody, and returns the identifier of the new listing.
    ///
    /// The checks are made in this order, and the first that fails names the error:
    /// `NotInitialized`; `InvalidPrice` unless `price > 0`; `InvalidQuantity` unless
    /// `quantity > 0`; `Unauthorized` unless `owner` sanctioned this very call;
    /// `InsufficientBalance` unless `owner` holds `quantity` units of `asset`. A call that is
    /// refused changes nothing.
    ///
    /// The counter must not have run out: there is no identifier after `u64::MAX`.
    pub fn create_listing(
        &mut self,
        host: &mut Host,
        auth: &AuthorizationContext,
        owner: Identity,
        asset: AssetRef,
        price: i128,
        quantity: i128,
    ) -> (result: Result<u64, Error>)
        requires
            old(self).wf(),
            old(host).wf(),
            old(self)@.next_id < u64::MAX,
        ensures
            final(self).wf(),
            final(host).wf(),
            result == old(self).world(old(host)).create_listing_verdict(
                auth@,
                owner,
                asset,
                price,
                quantity,
            ),
            final(self).world(final(host)) == if result is Ok {
                old(self).world(old(host)).after_create_listing(owner, asset, price, quantity)
            } else {
                old(self).world(old(host))
            },
            final(host).ledger.journal() == if result is Ok {
                old(host).ledger.journal().push(old(self)@.escrow_transfer(owner, asset, quantity))
            } else {
                old(host).ledger.journal()
            },
            forall|other: AssetRef| #[trigger]
                final(host).ledger.supply(other) == old(host).ledger.supply(other),
    {
        self.store.require_initialized()?;
        check_offer(price, quantity)?;
        auth.require(owner, Invocation::CreateListing { owner, asset, price, quantity })?;
        self.custody.hold(&mut host.ledger, asset, owner, quantity)?;
        let id = match self.registry.allocate_and_store(
            &mut self.store,
            owner,
            asset,
            price,
            quantity,
        ) {
            Ok(id) => id,
            // the terms were checked before anything was moved
            Err(_) => unreached(),
        };
        host.events.emit(Event { operation: Operation::CreateListing, actor: owner, payload: id });
        Ok(id)
    }

    /// The listing stored under `id`, or `None` when there is none.
    ///
    /// Refused with `NotInitialized` while the marketplace is not configured.
    pub fn get_listing(&self, id: u64) -> (result: Result<Option<Listing>, Error>)
        ensures
            result == self@.get_listing_verdict(id),
    {
        self.store.require_initialized()?;
        Ok(self.registry.load(id))
    }

    /// Replaces the per-unit price of listing `id` by `new_price`.
    ///
    /// The checks are made in this order, and the first that fails names the error:
    /// `NotInitialized`; `NotFound` when no listing is stored under `id`; `Unauthorized`
    /// unless the listing's owner sanctioned this very call; `InvalidPrice` unless
    /// `new_price > 0`. A call that is refused changes nothing.
    pub fn update_price(
        &mut self,
        host: &mut Host,
        auth: &AuthorizationContext,
        id: u64,
        new_price: i128,
    ) -> (result: Result<(), Error>)
        requires
            old(self).wf(),
            old(host).wf(),
        ensures
            final(self).wf(),
            final(host).wf(),
            result == old(self).world(old(host)).update_price_verdict(auth@, id, new_price),
            final(self).world(final(host)) == if result is Ok {
                old(self).world(old(host)).after_update_price(id, new_price)
            } else {
                old(self).world(old(host))
            },
            final(host).ledger.journal() == old(host).ledger.journal(),
            forall|other: AssetRef| #[trigger]
                final(host).ledger.supply(other) == old(host).ledger.supply(other),
    {
        self.store.require_initialized()?;
        let listing = match self.registry.load(id) {
            Some(listing) => listing,
            None => {
                return Err(Error::NotFound);
            },
        };
        auth.require(listing.owner, Invocation::UpdatePrice { id, new_price })?;
        self.registry.mutate(id, Mutation::SetPrice(new_price))?;
        host.events.emit(
            Event { operation: Operation::UpdatePrice, actor: listing.owner, payload: id },
        );
        Ok(())
    }

    /// Sets the flag of listing `id` to `listed` in the name of its owner.
    fn set_listed(
        &mut self,
        host: &mut Host,
        auth: &AuthorizationContext,
        id: u64,
        listed: bool,
    ) -> (result: Result<(), Error>)
        requires
            old(self).wf(),
            old(host).wf(),
        ensures
            final(self).wf(),
            final(host).wf(),
            result == old(self).world(old(host)).set_listed_verdict(auth@, id, listed),
            final(self).world(final(host)) == if result is Ok {
                old(self).world(old(host)).after_set_listed(id, listed)
            } else {
                old(self).world(old(host))
            },
            final(host).ledger.journal() == old(host).ledger.journal(),
            forall|other: AssetRef| #[trigger]
                final(host).ledger.supply(other) == old(host).ledger.supply(other),
    {
        self.store.require_initialized()?;
        let listing = match self.registry.load(id) {
            Some(listing) => listing,
            None => {
                return Err(Error::NotFound);
            },
        };
        let (invocation, operation) = if listed {
            (Invocation::UnpauseListing { id }, Operation::UnpauseListing)
        } else {
            (Invocation::PauseListing { id }, Operation::PauseListing)
        };
        auth.require(listing.owner, invocation)?;
        self.registry.mutate(id, Mutation::SetListed(listed))?;
        host.events.emit(Event { operation, actor: listing.owner, payload: id });
        Ok(())
    }

    /// Pauses listing `id`: it stays on record and in custody, but cannot be bought.
    ///
    /// The checks are made in this order, and the first that fails names the error:
    /// `NotInitialized`; `NotFound` when no listing is stored under `id`; `Unauthorized`
    /// unless the listing's owner sanctioned this very call. A call that is refused changes
    /// nothing.
    pub fn pause_listing(
        &mut self,
        host: &mut Host,
        auth: &AuthorizationContext,
        id: u64,
    ) -> (result: Result<(), Error>)
        requires
            old(self).wf(),
            old(host).wf(),
        ensures
            final(self).wf(),
            final(host).wf(),
            result == old(self).world(old(host)).set_listed_verdict(auth@, id, false),
            final(self).world(final(host)) == if result is Ok {
                old(self).world(old(host)).after_set_listed(id, false)
            } else {
                old(self).world(old(host))
            },
            final(host).ledger.journal() == old(host).ledger.journal(),
            forall|other: AssetRef| #[trigger]
                final(host).ledger.supply(other) == old(host).ledger.supply(other),
    {
        self.set_listed(host, auth, id, false)
    }

    /// Resumes listing `id`, so that it can be bought again.
    ///
    /// The checks are those of [`Marketplace::pause_listing`].
    pub fn unpause_listing(
        &mut self,
        host: &mut Host,
        auth: &AuthorizationContext,
        id: u64,
    ) -> (result: Result<(), Error>)
        requires
            old(self).wf(),
            old(host).wf(),
        ensures
            final(self).wf(),
            final(host).wf(),
            result == old(self).world(old(host)).set_listed_verdict(auth@, id, true),
            final(self).world(final(host)) == if result is Ok {
                old(self).world(old(host)).after_set_listed(id, true)
            } else {
                old(self).world(old(host))
            },
            final(host).ledger.journal() == old(host).ledger.journal(),
            forall|other: AssetRef| #[trigger]
                final(host).ledger.supply(other) == old(host).ledger.supply(other),
    {
        self.set_listed(host, auth, id, true)
    }

    /// Sells listing `id` to `buyer`: the buyer pays the owner `price * quantity` in the
    /// payment asset, custody hands the whole lot to the buyer, and the listing is deleted.
    ///
    /// The checks are made in this order, and the first that fails names the error:
    /// `NotInitialized`; `NotFound` when no listing is stored under `id`; `NotListed` while
    /// the listing is paused; `Unauthorized` unless `buyer` sanctioned this very call;
    /// `InsufficientBalance` unless `buyer` holds `price * quantity` of the payment asset, and
    /// unless custody covers the lot. A call that is refused changes nothing; a payment that
    /// was already made is returned.
    pub fn buy_listing(
        &mut self,
        host: &mut Host,
        auth: &AuthorizationContext,
        buyer: Identity,
        id: u64,
    ) -> (result: Result<(), Error>)
        requires
            old(self).wf(),
            old(host).wf(),
        ensures
            final(self).wf(),
            final(host).wf(),
            result == old(self).world(old(host)).buy_listing_verdict(auth@, buyer, id),
            final(self).world(final(host)) == if result is Ok {
                old(self).world(old(host)).after_buy_listing(buyer, id)
            } else {
                old(self).world(old(host))
            },
            final(host).ledger.journal() == if result is Ok {
                old(host).ledger.journal().push(old(self)@.payment_transfer(buyer, id)).push(
                    old(self)@.release_transfer(id, buyer),
                )
            } else {
                old(host).ledger.journal()
            },
            forall|other: AssetRef| #[trigger]
                final(host).ledger.supply(other) == old(host).ledger.supply(other),
    {
        let config = self.store.require_initialized()?;
        let listing = match self.registry.load(id) {
            Some(listing) => listing,
            None => {
                return Err(Error::NotFound);
            },
        };
        if !listing.listed {
            return Err(Error::NotListed);
        }
        auth.require(buyer, Invocation::BuyListing { buyer, id })?;
        proof {
            host.ledger.lemma_balances_valid();
        }
        let total = match listing.price.checked_mul(listing.quantity) {
            Some(total) => total,
            None => {
                assert(listing.price * listing.quantity >= 0) by (nonlinear_arith)
                    requires
                        listing.price > 0,
                        listing.quantity > 0,
                ;
                return Err(Error::InsufficientBalance);
            },
        };
        settle_payment(&mut host.ledger, config.payment_asset, buyer, listing.owner, total)?;
        match self.custody.release(&mut host.ledger, listing.asset, buyer, listing.quantity) {
            Ok(()) => {},
            Err(error) => {
                proof {
                    host.ledger.lemma_balances_valid();
                }
                let undone = host.ledger.undo_last();
                assert(undone);
                return Err(error);
            },
        }
        self.registry.remove(id);
        host.events.emit(Event { operation: Operation::BuyListing, actor: buyer, payload: id });
        Ok(())
    }

    /// Takes listing `id` off the market: custody hands the whole lot back to the owner and
    /// the listing is deleted.
    ///
    /// The checks are made in this order, and the first that fails names the error:
    /// `NotInitialized`; `NotFound` when no listing is stored under `id`; `Unauthorized`
    /// unless the listing's owner sanctioned this very call; `InsufficientBalance` unless
    /// custody covers the lot. A call that is refused changes nothing.
    pub fn remove_listing(
        &mut self,
        host: &mut Host,
        auth: &AuthorizationContext,
        id: u64,
    ) -> (result: Result<(), Error>)
        requires
            old(self).wf(),
            old(host).wf(),
        ensures
            final(self).wf(),
            final(host).wf(),
            result == old(self).world(old(host)).remove_listing_verdict(auth@, id),
            final(self).world(final(host)) == if result is Ok {
                old(self).world(old(host)).after_remove_listing(id)
            } else {
                old(self).world(old(host))
            },
            final(host).ledger.journal() == if result is Ok {
                old(host).ledger.journal().push(
                    old(self)@.release_transfer(id, old(self)@.listings[id].owner),
                )
            } else {
                old(host).ledger.journal()
            },
            forall|other: AssetRef| #[trigger]
                final(host).ledger.supply(other) == old(host).ledger.supply(other),
    {
        self.store.require_initialized()?;
        let listing = match self.registry.load(id) {
            Some(listing) => listing,
            None => {
                return Err(Error::NotFound);
            },
        };
        auth.require(listing.owner, Invocation::RemoveListing { id })?;
        self.custody.release(&mut host.ledger, listing.asset, listing.owner, listing.quantity)?;
        self.registry.remove(id);
        host.events.emit(
            Event { operation: Operation::RemoveListing, actor: listing.owner, payload: id },
        );
        Ok(())
    }

    /// The identity that has to sanction `invocation`: the owner of a new listing, the
    /// buyer, or the owner of the listing that is to be changed or removed; `None` where
    /// there is no such listing.
    pub fn signer(&self, invocation: Invocation) -> (signer: Option<Identity>)
        ensures
            signer == self@.signer(invocation),
    {
        match invocation {
            Invocation::CreateListing { owner, .. } => Some(owner),
            Invocation::BuyListing { buyer, .. } => Some(buyer),
            Invocation::UpdatePrice { id, .. } => self.owner_of(id),
            Invocation::PauseListing { id } => self.owner_of(id),
            Invocation::UnpauseListing { id } => self.owner_of(id),
            Invocation::RemoveListing { id } => self.owner_of(id),
        }
    }

    /// The owner of listing `id`, if it is on record.
    fn owner_of(&self, id: u64) -> (owner: Option<Identity>)
        ensures
            owner == if self@.listings.contains_key(id) {
                Some(self@.listings[id].owner)
            } else {
                None
            },
    {
        match self.registry.load(id) {
            Some(listing) => Some(listing.owner),
            None => None,
        }
    }

    /// The accounts whose balances `request` looks at or changes, each of them once. What
    /// the call does is the same in every book that agrees with this one on these accounts.
    pub fn accounts(&self, request: Request) -> (accounts: Vec<(AssetRef, Identity)>)
        ensures
            accounts@.no_duplicates(),
            forall|key: (AssetRef, Identity)|
                accounts@.contains(key) <==> self@.accounts(request).contains(key),
    {
        let mut accounts: Vec<(AssetRef, Identity)> = Vec::new();
        let custodian = self.custody.custodian;
        match request {
            Request::Guarded(Invocation::CreateListing { owner, asset, .. }) => {
                push_new(&mut accounts, asset, owner);
                push_new(&mut accounts, asset, custodian);
            },
            Request::Guarded(Invocation::BuyListing { buyer, id }) => {
                if let Some(config) = self.store.config() {
                    if let Some(listing) = self.registry.load(id) {
                        push_new(&mut accounts, config.payment_asset, buyer);
                        push_new(&mut accounts, config.payment_asset, listing.owner);
                        push_new(&mut accounts, listing.asset, custodian);
                        push_new(&mut accounts, listing.asset, buyer);
                    }
                }
            },
            Request::Guarded(Invocation::RemoveListing { id }) => {
                if let Some(listing) = self.registry.load(id) {
                    push_new(&mut accounts, listing.asset, custodian);
                    push_new(&mut accounts, listing.asset, listing.owner);
                }
            },
            _ => {},
        }
        accounts
    }

    /// Carries out `request`, whichever operation it names.
    ///
    /// What is done and what is answered is what the operation itself does and returns: see
    /// [`World::step`]. For a creation the counter must not have run out: there is no
    /// identifier after `u64::MAX`.
    pub fn execute(
        &mut self,
        host: &mut Host,
        auth: &AuthorizationContext,
        request: Request,
    ) -> (reply: Result<Reply, Error>)
        requires
            old(self).wf(),
            old(host).wf(),
            request matches Request::Guarded(Invocation::CreateListing { .. }) ==> old(
                self,
            )@.next_id < u64::MAX,
        ensures
            final(self).wf(),
            final(host).wf(),
            (final(self).world(final(host)), reply) == old(self).world(old(host)).step(
                auth@,
                request,
            ),
            final(host).ledger.journal() == if reply is Ok {
                old(host).ledger.journal() + old(self)@.transfers(request)
            } else {
                old(host).ledger.journal()
            },
            forall|other: AssetRef| #[trigger]
                final(host).ledger.supply(other) == old(host).ledger.supply(other),
    {
        match request {
            Request::Initialize { payment_asset, admin } => {
                self.initialize(payment_asset, admin)?;
                Ok(Reply::Done)
            },
            Request::GetListing { id } => {
                let listing = self.get_listing(id)?;
                Ok(Reply::Found(listing))
            },
            Request::Guarded(Invocation::CreateListing { owner, asset, price, quantity }) => {
                let id = self.create_listing(host, auth, owner, asset, price, quantity)?;
                Ok(Reply::Created(id))
            },
            Request::Guarded(Invocation::UpdatePrice { id, new_price }) => {
                self.update_price(host, auth, id, new_price)?;
                Ok(Reply::Done)
            },
            Request::Guarded(Invocation::PauseListing { id }) => {
                self.pause_listing(host, auth, id)?;
                Ok(Reply::Done)
            },
            Request::Guarded(Invocation::UnpauseListing { id }) => {
                self.unpause_listing(host, auth, id)?;
                Ok(Reply::Done)
            },
            Request::Guarded(Invocation::BuyListing { buyer, id }) => {
                self.buy_listing(host, auth, buyer, id)?;
                Ok(Reply::Done)
            },
            Request::Guarded(Invocation::RemoveListing { id }) => {
                self.remove_listing(host, auth, id)?;
                Ok(Reply::Done)
            },
        }
    }
}

/// Appends the account of `holder` for `asset` to `accounts` unless it is there already.
fn push_new(accounts: &mut Vec<(AssetRef, Identity)>, asset: AssetRef, holder: Identity)
    requires
        old(accounts)@.no_duplicates(),
    ensures
        final(accounts)@.no_duplicates(),
        forall|key: (AssetRef, Identity)|
            final(accounts)@.contains(key) <==> old(accounts)@.contains(key) || key == (
                asset,
                holder,
            ),
{
    let mut at: usize = 0;
    while at < accounts.len()
        invariant
            at <= accounts.len(),
            accounts@ == old(accounts)@,
            accounts@.no_duplicates(),
            forall|k: int| 0 <= k < at ==> accounts@[k] != (asset, holder),
        decreases accounts.len() - at,
    {
        if accounts[at].0 == asset && accounts[at].1 == holder {
            assert(accounts@[at as int] == (asset, holder));
            return ;
        }
        at += 1;
    }
    accounts.push((asset, holder));
    assert forall|key: (AssetRef, Identity)|
        accounts@.contains(key) <==> old(accounts)@.contains(key) || key == (asset, holder) by {
        if old(accounts)@.contains(key) {
            let k = choose|k: int| 0 <= k < old(accounts)@.len() && old(accounts)@[k] == key;
            assert(accounts@[k] == key);
        }
        if key == (asset, holder) {
            assert(accounts@[accounts@.len() - 1] == key);
        }
    }
}

} // verus!
