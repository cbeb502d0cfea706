use marketplace::ledger::Transfer;
use marketplace::{
    AssetRef, AuthorizationContext, Config, Error, Event, Host, Identity, Invocation, Listing,
    Marketplace, Operation,
};

const ESCROW: Identity = Identity(900);
const ADMIN: Identity = Identity(901);
const SELLER: Identity = Identity(1);
const BUYER: Identity = Identity(2);
const OTHER: Identity = Identity(3);
const COIN: AssetRef = AssetRef(50);
const ART: AssetRef = AssetRef(51);

fn open_market() -> (Marketplace, Host) {
    let mut market = Marketplace::new(ESCROW);
    market.initialize(COIN, ADMIN).unwrap();
    (market, Host::new())
}

/// Everything that can be observed: the records, every balance, what was moved and what
/// was announced.
fn snapshot(market: &Marketplace, host: &Host) -> String {
    let mut balances = Vec::new();
    for asset in [COIN, ART] {
        for holder in [ESCROW, ADMIN, SELLER, BUYER, OTHER] {
            balances.push(host.ledger.balance(asset, holder));
        }
    }
    format!(
        "{:?} | {:?} | {:?} | {:?} | {:?}",
        market,
        balances,
        host.ledger.transfers(),
        host.events,
        [host.ledger.total_supply(COIN), host.ledger.total_supply(ART)]
    )
}

fn list(
    market: &mut Marketplace,
    host: &mut Host,
    owner: Identity,
    asset: AssetRef,
    price: i128,
    quantity: i128,
) -> Result<u64, Error> {
    let auth = AuthorizationContext::of(
        owner,
        Invocation::CreateListing { owner, asset, price, quantity },
    );
    market.create_listing(host, &auth, owner, asset, price, quantity)
}

fn buy(market: &mut Marketplace, host: &mut Host, buyer: Identity, id: u64) -> Result<(), Error> {
    let auth = AuthorizationContext::of(buyer, Invocation::BuyListing { buyer, id });
    market.buy_listing(host, &auth, buyer, id)
}

fn pause(market: &mut Marketplace, host: &mut Host, owner: Identity, id: u64) -> Result<(), Error> {
    let auth = AuthorizationContext::of(owner, Invocation::PauseListing { id });
    market.pause_listing(host, &auth, id)
}

fn unpause(
    market: &mut Marketplace,
    host: &mut Host,
    owner: Identity,
    id: u64,
) -> Result<(), Error> {
    let auth = AuthorizationContext::of(owner, Invocation::UnpauseListing { id });
    market.unpause_listing(host, &auth, id)
}

fn remove(
    market: &mut Marketplace,
    host: &mut Host,
    owner: Identity,
    id: u64,
) -> Result<(), Error> {
    let auth = AuthorizationContext::of(owner, Invocation::RemoveListing { id });
    market.remove_listing(host, &auth, id)
}

fn reprice(
    market: &mut Marketplace,
    host: &mut Host,
    owner: Identity,
    id: u64,
    new_price: i128,
) -> Result<(), Error> {
    let auth = AuthorizationContext::of(owner, Invocation::UpdatePrice { id, new_price });
    market.update_price(host, &auth, id, new_price)
}

#[test]
fn a_funded_buyer_gets_the_lot_and_the_seller_the_price() {
    let (mut market, mut host) = open_market();
    host.ledger.mint(ART, SELLER, 2).unwrap();

    assert_eq!(list(&mut market, &mut host, SELLER, ART, 100, 2), Ok(1));
    assert_eq!(host.ledger.balance(ART, ESCROW), 2);

    host.ledger.mint(COIN, BUYER, 200).unwrap();
    assert_eq!(buy(&mut market, &mut host, BUYER, 1), Ok(()));

    assert_eq!(host.ledger.balance(COIN, SELLER), 200);
    assert_eq!(host.ledger.balance(COIN, BUYER), 0);
    assert_eq!(host.ledger.balance(ART, BUYER), 2);
    assert_eq!(host.ledger.balance(ART, ESCROW), 0);
    assert_eq!(market.get_listing(1), Ok(None));
}

#[test]
fn a_buyer_one_unit_short_changes_nothing() {
    let (mut market, mut host) = open_market();
    host.ledger.mint(ART, SELLER, 2).unwrap();
    assert_eq!(list(&mut market, &mut host, SELLER, ART, 100, 2), Ok(1));
    host.ledger.mint(COIN, BUYER, 199).unwrap();

    let before = snapshot(&market, &host);
    assert_eq!(buy(&mut market, &mut host, BUYER, 1), Err(Error::InsufficientBalance));
    assert_eq!(snapshot(&market, &host), before);

    assert_eq!(host.ledger.balance(COIN, SELLER), 0);
    assert_eq!(host.ledger.balance(COIN, BUYER), 199);
    assert_eq!(host.ledger.balance(ART, BUYER), 0);
    assert_eq!(host.ledger.balance(ART, SELLER), 0);
    assert_eq!(host.ledger.balance(ART, ESCROW), 2);
    assert_eq!(
        market.get_listing(1),
        Ok(Some(Listing {
            id: 1,
            owner: SELLER,
            asset: ART,
            price: 100,
            quantity: 2,
            listed: true,
        }))
    );
}

#[test]
fn initialize_goes_through_once_whatever_happens_in_between() {
    let mut market = Marketplace::new(ESCROW);
    let mut host = Host::new();
    assert_eq!(market.config(), None);
    assert_eq!(market.initialize(COIN, ADMIN), Ok(()));
    assert_eq!(
        market.config(),
        Some(Config { payment_asset: COIN, admin: ADMIN, initialized: true })
    );
    assert_eq!(market.next_id(), 0);

    host.ledger.mint(ART, SELLER, 5).unwrap();
    assert_eq!(list(&mut market, &mut host, SELLER, ART, 7, 5), Ok(1));
    assert_eq!(remove(&mut market, &mut host, SELLER, 1), Ok(()));

    let before = snapshot(&market, &host);
    assert_eq!(market.initialize(ART, OTHER), Err(Error::AlreadyInitialized));
    assert_eq!(market.initialize(COIN, ADMIN), Err(Error::AlreadyInitialized));
    assert_eq!(snapshot(&market, &host), before);
    assert_eq!(
        market.config(),
        Some(Config { payment_asset: COIN, admin: ADMIN, initialized: true })
    );
    assert_eq!(market.next_id(), 1);
}

#[test]
fn nothing_but_initialize_before_initialization() {
    let mut market = Marketplace::new(ESCROW);
    let mut host = Host::new();
    host.ledger.mint(ART, SELLER, 2).unwrap();
    host.ledger.mint(COIN, BUYER, 1000).unwrap();
    let before = snapshot(&market, &host);

    assert_eq!(list(&mut market, &mut host, SELLER, ART, 100, 2), Err(Error::NotInitialized));
    assert_eq!(list(&mut market, &mut host, SELLER, ART, 0, 0), Err(Error::NotInitialized));
    assert_eq!(market.get_listing(1), Err(Error::NotInitialized));
    assert_eq!(reprice(&mut market, &mut host, SELLER, 1, 0), Err(Error::NotInitialized));
    assert_eq!(pause(&mut market, &mut host, SELLER, 1), Err(Error::NotInitialized));
    assert_eq!(unpause(&mut market, &mut host, SELLER, 1), Err(Error::NotInitialized));
    assert_eq!(buy(&mut market, &mut host, BUYER, 1), Err(Error::NotInitialized));
    assert_eq!(remove(&mut market, &mut host, SELLER, 1), Err(Error::NotInitialized));
    let nobody = AuthorizationContext::new();
    assert_eq!(market.buy_listing(&mut host, &nobody, BUYER, 1), Err(Error::NotInitialized));

    assert_eq!(snapshot(&market, &host), before);
}

#[test]
fn identifiers_count_up_and_are_not_reused() {
    let (mut market, mut host) = open_market();
    host.ledger.mint(ART, SELLER, 10).unwrap();
    host.ledger.mint(COIN, BUYER, 1000).unwrap();

    assert_eq!(list(&mut market, &mut host, SELLER, ART, 10, 1), Ok(1));
    assert_eq!(list(&mut market, &mut host, SELLER, ART, 0, 1), Err(Error::InvalidPrice));
    assert_eq!(list(&mut market, &mut host, SELLER, ART, 10, 2), Ok(2));
    assert_eq!(remove(&mut market, &mut host, SELLER, 1), Ok(()));
    assert_eq!(list(&mut market, &mut host, SELLER, ART, 10, 100), Err(Error::InsufficientBalance));
    assert_eq!(buy(&mut market, &mut host, BUYER, 2), Ok(()));
    assert_eq!(market.next_id(), 2);
    assert_eq!(list(&mut market, &mut host, SELLER, ART, 10, 3), Ok(3));
    assert_eq!(list(&mut market, &mut host, OTHER, ART, 10, 3), Err(Error::InsufficientBalance));
    assert_eq!(list(&mut market, &mut host, SELLER, ART, 10, 4), Ok(4));
    assert_eq!(market.next_id(), 4);

    assert_eq!(market.get_listing(1), Ok(None));
    assert_eq!(market.get_listing(2), Ok(None));
    assert_eq!(market.get_listing(3).unwrap().unwrap().quantity, 3);
    assert_eq!(market.get_listing(4).unwrap().unwrap().id, 4);
    assert_eq!(market.get_listing(5), Ok(None));
    assert_eq!(market.get_listing(0), Ok(None));
}

#[test]
fn an_invalid_offer_creates_nothing_and_moves_nothing() {
    let (mut market, mut host) = open_market();
    host.ledger.mint(ART, SELLER, 2).unwrap();
    let before = snapshot(&market, &host);

    assert_eq!(list(&mut market, &mut host, SELLER, ART, 0, 2), Err(Error::InvalidPrice));
    assert_eq!(list(&mut market, &mut host, SELLER, ART, -1, 2), Err(Error::InvalidPrice));
    assert_eq!(list(&mut market, &mut host, SELLER, ART, i128::MIN, 2), Err(Error::InvalidPrice));
    assert_eq!(list(&mut market, &mut host, SELLER, ART, 1, 0), Err(Error::InvalidQuantity));
    assert_eq!(list(&mut market, &mut host, SELLER, ART, 1, -2), Err(Error::InvalidQuantity));
    assert_eq!(
        list(&mut market, &mut host, SELLER, ART, 1, i128::MIN),
        Err(Error::InvalidQuantity)
    );
    // the price is looked at first
    assert_eq!(list(&mut market, &mut host, SELLER, ART, 0, 0), Err(Error::InvalidPrice));
    assert_eq!(list(&mut market, &mut host, SELLER, ART, -5, -5), Err(Error::InvalidPrice));

    assert_eq!(snapshot(&market, &host), before);
    assert_eq!(market.get_listing(1), Ok(None));
    assert_eq!(market.next_id(), 0);
    assert_eq!(host.ledger.balance(ART, SELLER), 2);
    assert_eq!(host.ledger.balance(ART, ESCROW), 0);
    assert!(host.ledger.transfers().is_empty());
    assert_eq!(host.events.len(), 0);
}

#[test]
fn an_owner_who_lacks_the_lot_creates_nothing() {
    let (mut market, mut host) = open_market();
    host.ledger.mint(ART, SELLER, 1).unwrap();
    let before = snapshot(&market, &host);

    assert_eq!(list(&mut market, &mut host, SELLER, ART, 100, 2), Err(Error::InsufficientBalance));

    assert_eq!(snapshot(&market, &host), before);
    assert_eq!(market.get_listing(1), Ok(None));
    assert_eq!(market.next_id(), 0);
    assert_eq!(host.ledger.balance(ART, SELLER), 1);
    assert_eq!(list(&mut market, &mut host, SELLER, ART, 100, 1), Ok(1));
}

#[test]
fn a_creation_moves_exactly_the_quantity_into_custody() {
    let (mut market, mut host) = open_market();
    host.ledger.mint(ART, SELLER, 7).unwrap();
    host.ledger.mint(ART, ESCROW, 10).unwrap();
    host.ledger.mint(ART, OTHER, 4).unwrap();
    host.ledger.mint(COIN, SELLER, 9).unwrap();

    assert_eq!(list(&mut market, &mut host, SELLER, ART, 3, 5), Ok(1));

    assert_eq!(host.ledger.balance(ART, ESCROW), 15);
    assert_eq!(host.ledger.balance(ART, SELLER), 2);
    assert_eq!(host.ledger.balance(ART, OTHER), 4);
    assert_eq!(host.ledger.balance(COIN, SELLER), 9);
    assert_eq!(host.ledger.total_supply(ART), 21);
    assert_eq!(
        host.ledger.transfers().as_slice(),
        [Transfer { asset: ART, from: SELLER, to: ESCROW, amount: 5 }].as_slice()
    );
}

#[test]
fn the_price_is_per_unit() {
    let (mut market, mut host) = open_market();
    host.ledger.mint(ART, SELLER, 3).unwrap();
    host.ledger.mint(COIN, BUYER, 100).unwrap();
    assert_eq!(list(&mut market, &mut host, SELLER, ART, 7, 3), Ok(1));

    assert_eq!(buy(&mut market, &mut host, BUYER, 1), Ok(()));

    assert_eq!(host.ledger.balance(COIN, BUYER), 79);
    assert_eq!(host.ledger.balance(COIN, SELLER), 21);
    assert_eq!(host.ledger.balance(ART, BUYER), 3);
    assert_eq!(
        host.ledger.transfers().as_slice(),
        [
            Transfer { asset: ART, from: SELLER, to: ESCROW, amount: 3 },
            Transfer { asset: COIN, from: BUYER, to: SELLER, amount: 21 },
            Transfer { asset: ART, from: ESCROW, to: BUYER, amount: 3 },
        ]
        .as_slice()
    );
    assert_eq!(host.ledger.total_supply(COIN), 100);
    assert_eq!(host.ledger.total_supply(ART), 3);
}

#[test]
fn a_paused_listing_cannot_be_bought_until_it_is_resumed() {
    let (mut market, mut host) = open_market();
    host.ledger.mint(ART, SELLER, 2).unwrap();
    host.ledger.mint(COIN, BUYER, 400).unwrap();
    assert_eq!(list(&mut market, &mut host, SELLER, ART, 100, 2), Ok(1));

    assert_eq!(pause(&mut market, &mut host, SELLER, 1), Ok(()));
    let paused = snapshot(&market, &host);
    assert_eq!(buy(&mut market, &mut host, BUYER, 1), Err(Error::NotListed));
    // a paused listing is reported as such before the buyer's authorization is asked for
    let nobody = AuthorizationContext::new();
    assert_eq!(market.buy_listing(&mut host, &nobody, BUYER, 1), Err(Error::NotListed));
    assert_eq!(snapshot(&market, &host), paused);
    assert_eq!(host.ledger.balance(ART, ESCROW), 2);

    assert_eq!(unpause(&mut market, &mut host, SELLER, 1), Ok(()));
    assert_eq!(market.buy_listing(&mut host, &nobody, BUYER, 1), Err(Error::Unauthorized));
    assert_eq!(buy(&mut market, &mut host, BUYER, 1), Ok(()));
    assert_eq!(host.ledger.balance(ART, BUYER), 2);
    assert_eq!(host.ledger.balance(COIN, BUYER), 200);
    assert_eq!(host.ledger.balance(COIN, SELLER), 200);
}

#[test]
fn pausing_and_resuming_twice_is_harmless() {
    let (mut market, mut host) = open_market();
    host.ledger.mint(ART, SELLER, 2).unwrap();
    assert_eq!(list(&mut market, &mut host, SELLER, ART, 100, 2), Ok(1));

    assert_eq!(unpause(&mut market, &mut host, SELLER, 1), Ok(()));
    assert_eq!(market.get_listing(1).unwrap().unwrap().listed, true);
    assert_eq!(pause(&mut market, &mut host, SELLER, 1), Ok(()));
    assert_eq!(pause(&mut market, &mut host, SELLER, 1), Ok(()));
    assert_eq!(market.get_listing(1).unwrap().unwrap().listed, false);
    assert_eq!(host.events.len(), 4);
    assert_eq!(
        host.events.get(3),
        Some(Event { operation: Operation::PauseListing, actor: SELLER, payload: 1 })
    );
    // a paused listing can still be repriced and removed
    assert_eq!(reprice(&mut market, &mut host, SELLER, 1, 5), Ok(()));
    assert_eq!(
        market.get_listing(1),
        Ok(Some(Listing { id: 1, owner: SELLER, asset: ART, price: 5, quantity: 2, listed: false }))
    );
    assert_eq!(remove(&mut market, &mut host, SELLER, 1), Ok(()));
    assert_eq!(host.ledger.balance(ART, SELLER), 2);
}

#[test]
fn a_new_price_is_what_the_buyer_pays() {
    let (mut market, mut host) = open_market();
    host.ledger.mint(ART, SELLER, 2).unwrap();
    host.ledger.mint(COIN, BUYER, 50).unwrap();
    assert_eq!(list(&mut market, &mut host, SELLER, ART, 100, 2), Ok(1));
    assert_eq!(buy(&mut market, &mut host, BUYER, 1), Err(Error::InsufficientBalance));
    assert_eq!(reprice(&mut market, &mut host, SELLER, 1, 25), Ok(()));
    assert_eq!(buy(&mut market, &mut host, BUYER, 1), Ok(()));
    assert_eq!(host.ledger.balance(COIN, BUYER), 0);
    assert_eq!(host.ledger.balance(COIN, SELLER), 50);
}

#[test]
fn an_unknown_listing_is_not_found() {
    let (mut market, mut host) = open_market();
    host.ledger.mint(ART, SELLER, 2).unwrap();
    host.ledger.mint(COIN, BUYER, 400).unwrap();
    assert_eq!(list(&mut market, &mut host, SELLER, ART, 100, 2), Ok(1));
    let before = snapshot(&market, &host);

    assert_eq!(market.get_listing(2), Ok(None));
    assert_eq!(reprice(&mut market, &mut host, SELLER, 2, 5), Err(Error::NotFound));
    // an unknown listing is reported before the new price is looked at
    assert_eq!(reprice(&mut market, &mut host, SELLER, 2, 0), Err(Error::NotFound));
    assert_eq!(pause(&mut market, &mut host, SELLER, 2), Err(Error::NotFound));
    assert_eq!(unpause(&mut market, &mut host, SELLER, 2), Err(Error::NotFound));
    assert_eq!(buy(&mut market, &mut host, BUYER, 2), Err(Error::NotFound));
    assert_eq!(remove(&mut market, &mut host, SELLER, 2), Err(Error::NotFound));
    assert_eq!(remove(&mut market, &mut host, SELLER, 0), Err(Error::NotFound));
    assert_eq!(Error::NotFound.code(), Some(5));

    assert_eq!(snapshot(&market, &host), before);
}

#[test]
fn a_listing_that_is_gone_stays_gone() {
    let (mut market, mut host) = open_market();
    host.ledger.mint(ART, SELLER, 2).unwrap();
    host.ledger.mint(COIN, BUYER, 400).unwrap();
    assert_eq!(list(&mut market, &mut host, SELLER, ART, 100, 1), Ok(1));
    assert_eq!(list(&mut market, &mut host, SELLER, ART, 100, 1), Ok(2));
    assert_eq!(buy(&mut market, &mut host, BUYER, 1), Ok(()));
    assert_eq!(remove(&mut market, &mut host, SELLER, 2), Ok(()));

    for id in [1u64, 2u64] {
        assert_eq!(market.get_listing(id), Ok(None));
        assert_eq!(buy(&mut market, &mut host, BUYER, id), Err(Error::NotFound));
        assert_eq!(remove(&mut market, &mut host, SELLER, id), Err(Error::NotFound));
        assert_eq!(pause(&mut market, &mut host, SELLER, id), Err(Error::NotFound));
        assert_eq!(unpause(&mut market, &mut host, SELLER, id), Err(Error::NotFound));
        assert_eq!(reprice(&mut market, &mut host, SELLER, id, 1), Err(Error::NotFound));
    }
    assert_eq!(host.ledger.balance(ART, SELLER), 1);
    assert_eq!(host.ledger.balance(ART, BUYER), 1);
    assert_eq!(host.ledger.balance(ART, ESCROW), 0);
}

#[test]
fn only_the_exact_call_is_authorized() {
    let (mut market, mut host) = open_market();
    host.ledger.mint(ART, SELLER, 4).unwrap();
    host.ledger.mint(COIN, BUYER, 400).unwrap();
    assert_eq!(list(&mut market, &mut host, SELLER, ART, 100, 2), Ok(1));
    assert_eq!(list(&mut market, &mut host, SELLER, ART, 100, 2), Ok(2));
    let before = snapshot(&market, &host);

    // sanctioned for other arguments
    let cheaper =
        AuthorizationContext::of(SELLER, Invocation::UpdatePrice { id: 1, new_price: 200 });
    assert_eq!(market.update_price(&mut host, &cheaper, 1, 300), Err(Error::Unauthorized));
    assert_eq!(market.update_price(&mut host, &cheaper, 2, 200), Err(Error::Unauthorized));
    let other_listing = AuthorizationContext::of(SELLER, Invocation::PauseListing { id: 2 });
    assert_eq!(market.pause_listing(&mut host, &other_listing, 1), Err(Error::Unauthorized));
    // sanctioned for another operation
    assert_eq!(market.unpause_listing(&mut host, &other_listing, 2), Err(Error::Unauthorized));
    assert_eq!(market.remove_listing(&mut host, &other_listing, 2), Err(Error::Unauthorized));
    // sanctioned by somebody else
    let stranger = AuthorizationContext::of(OTHER, Invocation::RemoveListing { id: 1 });
    assert_eq!(market.remove_listing(&mut host, &stranger, 1), Err(Error::Unauthorized));
    let admin = AuthorizationContext::of(ADMIN, Invocation::RemoveListing { id: 1 });
    assert_eq!(market.remove_listing(&mut host, &admin, 1), Err(Error::Unauthorized));
    let for_another =
        AuthorizationContext::of(BUYER, Invocation::BuyListing { buyer: OTHER, id: 1 });
    assert_eq!(market.buy_listing(&mut host, &for_another, BUYER, 1), Err(Error::Unauthorized));
    let lot = Invocation::CreateListing { owner: SELLER, asset: ART, price: 1, quantity: 1 };
    let more = AuthorizationContext::of(SELLER, lot);
    assert_eq!(
        market.create_listing(&mut host, &more, SELLER, ART, 1, 2),
        Err(Error::Unauthorized)
    );
    assert_eq!(
        market.create_listing(&mut host, &more, SELLER, ART, 2, 1),
        Err(Error::Unauthorized)
    );
    assert_eq!(
        market.create_listing(&mut host, &more, SELLER, COIN, 1, 1),
        Err(Error::Unauthorized)
    );
    assert_eq!(market.create_listing(&mut host, &more, OTHER, ART, 1, 1), Err(Error::Unauthorized));
    // nobody sanctioned anything
    let nobody = AuthorizationContext::new();
    assert_eq!(market.remove_listing(&mut host, &nobody, 1), Err(Error::Unauthorized));
    assert_eq!(Error::Unauthorized.code(), None);

    assert_eq!(snapshot(&market, &host), before);

    // among several facts the right one is found
    let mut several = AuthorizationContext::new();
    several.record(OTHER, Invocation::RemoveListing { id: 1 });
    several.record(SELLER, Invocation::PauseListing { id: 1 });
    several.record(SELLER, Invocation::RemoveListing { id: 1 });
    assert_eq!(market.remove_listing(&mut host, &several, 2), Err(Error::Unauthorized));
    assert_eq!(market.remove_listing(&mut host, &several, 1), Ok(()));
}

#[test]
fn a_price_too_large_to_pay_is_not_paid() {
    let (mut market, mut host) = open_market();
    host.ledger.mint(ART, SELLER, 2).unwrap();
    host.ledger.mint(COIN, BUYER, i128::MAX).unwrap();
    assert_eq!(list(&mut market, &mut host, SELLER, ART, i128::MAX, 2), Ok(1));
    let before = snapshot(&market, &host);

    assert_eq!(buy(&mut market, &mut host, BUYER, 1), Err(Error::InsufficientBalance));
    assert_eq!(snapshot(&market, &host), before);

    // at the largest price that can be paid the purchase goes through
    assert_eq!(remove(&mut market, &mut host, SELLER, 1), Ok(()));
    assert_eq!(list(&mut market, &mut host, SELLER, ART, i128::MAX, 1), Ok(2));
    assert_eq!(buy(&mut market, &mut host, BUYER, 2), Ok(()));
    assert_eq!(host.ledger.balance(COIN, SELLER), i128::MAX);
    assert_eq!(host.ledger.balance(COIN, BUYER), 0);
}

#[test]
fn an_owner_can_buy_the_own_listing() {
    let (mut market, mut host) = open_market();
    host.ledger.mint(ART, SELLER, 2).unwrap();
    host.ledger.mint(COIN, SELLER, 150).unwrap();
    assert_eq!(list(&mut market, &mut host, SELLER, ART, 100, 2), Ok(1));
    assert_eq!(buy(&mut market, &mut host, SELLER, 1), Err(Error::InsufficientBalance));
    host.ledger.mint(COIN, SELLER, 50).unwrap();
    assert_eq!(buy(&mut market, &mut host, SELLER, 1), Ok(()));
    assert_eq!(host.ledger.balance(COIN, SELLER), 200);
    assert_eq!(host.ledger.balance(ART, SELLER), 2);
    assert_eq!(host.ledger.balance(ART, ESCROW), 0);
    assert_eq!(market.get_listing(1), Ok(None));
}

#[test]
fn the_payment_asset_itself_can_be_listed() {
    let (mut market, mut host) = open_market();
    host.ledger.mint(COIN, SELLER, 10).unwrap();
    host.ledger.mint(COIN, BUYER, 30).unwrap();
    assert_eq!(list(&mut market, &mut host, SELLER, COIN, 3, 10), Ok(1));
    assert_eq!(host.ledger.balance(COIN, ESCROW), 10);
    assert_eq!(buy(&mut market, &mut host, BUYER, 1), Ok(()));
    assert_eq!(host.ledger.balance(COIN, SELLER), 30);
    assert_eq!(host.ledger.balance(COIN, BUYER), 10);
    assert_eq!(host.ledger.balance(COIN, ESCROW), 0);
    assert_eq!(host.ledger.total_supply(COIN), 40);
}

#[test]
fn custody_that_was_emptied_behind_the_marketplace_delivers_nothing() {
    let (mut market, mut host) = open_market();
    host.ledger.mint(ART, SELLER, 2).unwrap();
    host.ledger.mint(COIN, BUYER, 400).unwrap();
    assert_eq!(list(&mut market, &mut host, SELLER, ART, 100, 2), Ok(1));
    host.ledger.transfer(ART, ESCROW, OTHER, 1).unwrap();
    let before = snapshot(&market, &host);

    // the payment that was already made is taken back
    assert_eq!(buy(&mut market, &mut host, BUYER, 1), Err(Error::InsufficientBalance));
    assert_eq!(snapshot(&market, &host), before);
    assert_eq!(host.ledger.balance(COIN, BUYER), 400);
    assert_eq!(host.ledger.balance(COIN, SELLER), 0);
    assert_eq!(host.ledger.transfers().len(), 2);

    assert_eq!(remove(&mut market, &mut host, SELLER, 1), Err(Error::InsufficientBalance));
    assert_eq!(snapshot(&market, &host), before);

    host.ledger.transfer(ART, OTHER, ESCROW, 1).unwrap();
    assert_eq!(buy(&mut market, &mut host, BUYER, 1), Ok(()));
}

#[test]
fn every_change_is_announced_once() {
    let (mut market, mut host) = open_market();
    host.ledger.mint(ART, SELLER, 4).unwrap();
    host.ledger.mint(COIN, BUYER, 400).unwrap();
    assert_eq!(host.events.len(), 0);
    assert_eq!(host.events.last(), None);

    assert_eq!(list(&mut market, &mut host, SELLER, ART, 100, 2), Ok(1));
    assert_eq!(list(&mut market, &mut host, SELLER, ART, 100, 2), Ok(2));
    assert_eq!(reprice(&mut market, &mut host, SELLER, 2, 50), Ok(()));
    assert_eq!(pause(&mut market, &mut host, SELLER, 2), Ok(()));
    assert_eq!(market.get_listing(2).unwrap().unwrap().price, 50);
    assert_eq!(unpause(&mut market, &mut host, SELLER, 2), Ok(()));
    assert_eq!(buy(&mut market, &mut host, BUYER, 2), Ok(()));
    assert_eq!(buy(&mut market, &mut host, BUYER, 2), Err(Error::NotFound));
    assert_eq!(remove(&mut market, &mut host, SELLER, 1), Ok(()));

    let expected = [
        Event { operation: Operation::CreateListing, actor: SELLER, payload: 1 },
        Event { operation: Operation::CreateListing, actor: SELLER, payload: 2 },
        Event { operation: Operation::UpdatePrice, actor: SELLER, payload: 2 },
        Event { operation: Operation::PauseListing, actor: SELLER, payload: 2 },
        Event { operation: Operation::UnpauseListing, actor: SELLER, payload: 2 },
        Event { operation: Operation::BuyListing, actor: BUYER, payload: 2 },
        Event { operation: Operation::RemoveListing, actor: SELLER, payload: 1 },
    ];
    assert_eq!(host.events.len(), expected.len());
    for (index, event) in expected.iter().enumerate() {
        assert_eq!(host.events.get(index), Some(*event));
    }
    assert_eq!(host.events.get(expected.len()), None);
    assert_eq!(host.events.last(), Some(expected[6]));
}

#[test]
fn records_that_were_kept_elsewhere_can_be_taken_up_again() {
    let config = Some(Config { payment_asset: COIN, admin: ADMIN, initialized: true });
    let first = Listing { id: 1, owner: SELLER, asset: ART, price: 100, quantity: 2, listed: true };
    let third = Listing { id: 3, owner: OTHER, asset: ART, price: 5, quantity: 1, listed: false };

    let mut market = Marketplace::restore(ESCROW, config, 3, &vec![third, first]).unwrap();
    assert_eq!(market.custodian(), ESCROW);
    assert_eq!(market.config(), config);
    assert_eq!(market.next_id(), 3);
    assert_eq!(market.get_listing(1), Ok(Some(first)));
    assert_eq!(market.get_listing(2), Ok(None));
    assert_eq!(market.get_listing(3), Ok(Some(third)));

    let mut host = Host::new();
    host.ledger.mint(ART, ESCROW, 3).unwrap();
    host.ledger.mint(ART, SELLER, 1).unwrap();
    host.ledger.mint(COIN, BUYER, 200).unwrap();
    assert_eq!(list(&mut market, &mut host, SELLER, ART, 1, 1), Ok(4));
    assert_eq!(buy(&mut market, &mut host, BUYER, 3), Err(Error::NotListed));
    assert_eq!(buy(&mut market, &mut host, BUYER, 1), Ok(()));
    assert_eq!(market.initialize(COIN, ADMIN), Err(Error::AlreadyInitialized));

    let empty = Marketplace::restore(ESCROW, None, 0, &vec![]).unwrap();
    assert_eq!(empty.get_listing(1), Err(Error::NotInitialized));
    assert_eq!(empty.config(), None);
}

#[test]
fn records_that_do_not_fit_together_are_turned_away() {
    let config = Some(Config { payment_asset: COIN, admin: ADMIN, initialized: true });
    let good = Listing { id: 1, owner: SELLER, asset: ART, price: 100, quantity: 2, listed: true };

    assert!(Marketplace::restore(ESCROW, config, 1, &vec![good]).is_some());
    // an identifier that was never assigned
    assert!(Marketplace::restore(ESCROW, config, 0, &vec![good]).is_none());
    assert!(Marketplace::restore(ESCROW, config, 5, &vec![Listing { id: 0, ..good }]).is_none());
    assert!(Marketplace::restore(ESCROW, config, 5, &vec![Listing { id: 6, ..good }]).is_none());
    // an identifier that occurs twice
    assert!(
        Marketplace::restore(ESCROW, config, 5, &vec![good, Listing { price: 1, ..good }]).is_none()
    );
    // terms that no listing can have
    assert!(Marketplace::restore(ESCROW, config, 5, &vec![Listing { price: 0, ..good }]).is_none());
    assert!(
        Marketplace::restore(ESCROW, config, 5, &vec![Listing { quantity: -1, ..good }]).is_none()
    );
    // listings without configuration
    assert!(Marketplace::restore(ESCROW, None, 5, &vec![good]).is_none());
    // a configuration that is not marked as written
    let unmarked = Some(Config { payment_asset: COIN, admin: ADMIN, initialized: false });
    assert!(Marketplace::restore(ESCROW, unmarked, 5, &vec![]).is_none());
    assert!(Marketplace::restore(ESCROW, None, 5, &vec![]).is_some());
}
