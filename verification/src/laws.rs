//! What holds of the marketplace whatever is asked of it, and in whatever order.

use crate::auth::{authorizes, Authorization, Invocation};
use crate::error::Error;
use crate::identity::{AssetRef, Identity};
use crate::ledger::{replay, valid_balances, Ledger, Transfer};
use crate::model::{escrowed, offered, Command, World};
use crate::registry::{valid_listings, Listing};
use crate::request::{Reply, Request};
use vstd::prelude::*;

verus! {

/// In a book nobody is in debt, nobody owns more of an asset than there is of it, and there
/// is no more of it than fits in an `i128`.
pub proof fn law_nobody_owns_more_than_there_is(ledger: Ledger, asset: AssetRef, holder: Identity)
    requires
        ledger.wf(),
    ensures
        0 <= ledger@[(asset, holder)] <= ledger.supply(asset) <= i128::MAX,
{
    ledger.lemma_balance_within_supply(asset, holder);
}

/// A call that is refused changes nothing.
pub proof fn law_all_or_nothing(world: World, auth: Seq<Authorization>, request: Request)
    ensures
        world.step(auth, request).1 is Err ==> world.step(auth, request).0 == world,
{
}

/// On a marketplace without configuration `initialize` goes through, and after any calls
/// whatsoever a further `initialize` is refused with `AlreadyInitialized` and changes nothing.
pub proof fn law_initialize_exactly_once(
    world: World,
    auth: Seq<Authorization>,
    first: Request,
    between: Seq<Command>,
    again: Command,
)
    requires
        world.market.config is None,
        first is Initialize,
        again.request is Initialize,
    ensures
        world.step(auth, first).1 == Ok::<Reply, Error>(Reply::Done),
        world.step(auth, first).0.run(between).step(again.auth, again.request) == (
            world.step(auth, first).0.run(between),
            Err::<Reply, Error>(Error::AlreadyInitialized),
        ),
{
    law_configuration_is_permanent(world.step(auth, first).0, between);
}

/// A configuration, once written, is never changed or removed.
pub proof fn law_configuration_is_permanent(world: World, commands: Seq<Command>)
    requires
        world.market.config is Some,
    ensures
        world.run(commands).market.config == world.market.config,
    decreases commands.len(),
{
    if commands.len() > 0 {
        law_configuration_is_permanent(world, commands.drop_last());
    }
}

/// Before initialization every operation but `initialize` is refused with `NotInitialized`
/// and changes nothing.
pub proof fn law_nothing_before_initialization(
    world: World,
    auth: Seq<Authorization>,
    request: Request,
)
    requires
        world.market.config is None,
        !(request is Initialize),
    ensures
        world.step(auth, request) == (world, Err::<Reply, Error>(Error::NotInitialized)),
{
}

/// From a marketplace without configuration, the creations that go through return the
/// identifiers 1, 2, 3, ... in call order, whatever is called in between. No identifier is
/// returned twice, and the counter stands at the number of listings created.
pub proof fn law_identifiers_count_up(world: World, commands: Seq<Command>)
    requires
        world.market.config is None,
        commands.len() < u64::MAX,
    ensures
        forall|k: int|
            0 <= k < world.created(commands).len() ==> #[trigger] world.created(commands)[k] == k
                + 1,
        forall|i: int, j: int|
            0 <= i < j < world.created(commands).len() ==> world.created(commands)[i]
                != world.created(commands)[j],
        world.created(commands).len() <= commands.len(),
        world.run(commands).market.config is Some ==> world.run(commands).market.next_id
            == world.created(commands).len(),
        world.run(commands).market.config is None ==> world.created(commands).len() == 0,
    decreases commands.len(),
{
    if commands.len() > 0 {
        law_identifiers_count_up(world, commands.drop_last());
    }
}

/// The counter moves only when a listing is created, and then by one. The listing is stored
/// under the new count, an identifier under which nothing was on record.
pub proof fn law_counter_moves_on_creation_only(
    world: World,
    auth: Seq<Authorization>,
    request: Request,
)
    requires
        world.market.wf(),
        world.market.config is Some,
        world.market.next_id < u64::MAX,
    ensures
        match world.step(auth, request).1 {
            Ok(Reply::Created(id)) => {
                &&& id == world.market.next_id + 1
                &&& world.step(auth, request).0.market.next_id == id
                &&& !world.market.listings.contains_key(id)
                &&& world.step(auth, request).0.market.listings.contains_key(id)
            },
            _ => world.step(auth, request).0.market.next_id == world.market.next_id,
        },
{
}

/// `create_listing` on a configured marketplace is refused with `InvalidPrice` when the
/// price is not positive, and with `InvalidQuantity` when the price is positive and the
/// quantity is not. Either way no listing is created and nothing is moved.
pub proof fn law_invalid_offer_is_refused(
    world: World,
    auth: Seq<Authorization>,
    owner: Identity,
    asset: AssetRef,
    price: i128,
    quantity: i128,
)
    requires
        world.market.config is Some,
        price <= 0 || quantity <= 0,
    ensures
        world.step(
            auth,
            Request::Guarded(Invocation::CreateListing { owner, asset, price, quantity }),
        ) == (
            world,
            Err::<Reply, Error>(
                if price <= 0 {
                    Error::InvalidPrice
                } else {
                    Error::InvalidQuantity
                },
            ),
        ),
{
}

/// `create_listing` with valid terms, sanctioned by an owner who holds less than the
/// quantity, is refused with `InsufficientBalance`; no listing is created and nothing is moved.
pub proof fn law_creation_needs_the_lot(
    world: World,
    auth: Seq<Authorization>,
    owner: Identity,
    asset: AssetRef,
    price: i128,
    quantity: i128,
)
    requires
        world.market.config is Some,
        price > 0,
        quantity > 0,
        authorizes(auth, owner, Invocation::CreateListing { owner, asset, price, quantity }),
        world.balances[(asset, owner)] < quantity,
    ensures
        world.step(
            auth,
            Request::Guarded(Invocation::CreateListing { owner, asset, price, quantity }),
        ) == (world, Err::<Reply, Error>(Error::InsufficientBalance)),
{
}

/// A creation that goes through moves exactly the quantity from the owner into custody: what
/// custody holds of the asset grows by the quantity, what the owner holds shrinks by it, and
/// no other balance changes. (An owner who is the custodian itself is left out: nothing would
/// move.)
pub proof fn law_creation_escrows_the_lot(
    world: World,
    auth: Seq<Authorization>,
    owner: Identity,
    asset: AssetRef,
    price: i128,
    quantity: i128,
)
    requires
        world.create_listing_verdict(auth, owner, asset, price, quantity) is Ok,
        owner != world.market.custodian,
    ensures
        ({
            let after = world.step(
                auth,
                Request::Guarded(Invocation::CreateListing { owner, asset, price, quantity }),
            ).0;
            &&& after.escrow(asset) == world.escrow(asset) + quantity
            &&& after.balances[(asset, owner)] == world.balances[(asset, owner)] - quantity
            &&& forall|key: (AssetRef, Identity)|
                key != (asset, owner) && key != (asset, world.market.custodian)
                    ==> #[trigger] after.balances[key] == world.balances[key]
        }),
{
}

/// A purchase goes through only for a listing that is on record and not paused, and only
/// when the buyer sanctioned it and covers `price * quantity`. Afterwards the listing is gone.
/// Where the buyer is neither the owner nor the custodian and pays in another asset than
/// the one bought, the buyer has gained the quantity and custody has lost it, and the owner
/// has gained `price * quantity` of the payment asset and the buyer has lost it.
pub proof fn law_purchase_settles(world: World, auth: Seq<Authorization>, buyer: Identity, id: u64)
    requires
        world.buy_listing_verdict(auth, buyer, id) is Ok,
    ensures
        world.market.listings.contains_key(id),
        world.market.listings[id].listed,
        authorizes(auth, buyer, Invocation::BuyListing { buyer, id }),
        world.balances[(world.market.config->0.payment_asset, buyer)]
            >= world.market.listings[id].price * world.market.listings[id].quantity,
        ({
            let after = world.step(auth, Request::Guarded(Invocation::BuyListing { buyer, id })).0;
            let listing = world.market.listings[id];
            let payment = world.market.config->0.payment_asset;
            &&& after.step(auth, Request::GetListing { id }).1 == Ok::<Reply, Error>(
                Reply::Found(None),
            )
            &&& listing.asset != payment && buyer != listing.owner && buyer
                != world.market.custodian ==> {
                &&& after.balances[(listing.asset, buyer)] == world.balances[(
                    listing.asset,
                    buyer,
                )] + listing.quantity
                &&& after.escrow(listing.asset) == world.escrow(listing.asset) - listing.quantity
                &&& after.balances[(payment, listing.owner)] == world.balances[(
                    payment,
                    listing.owner,
                )] + listing.price * listing.quantity
                &&& after.balances[(payment, buyer)] == world.balances[(payment, buyer)]
                    - listing.price * listing.quantity
            }
        }),
{
}

/// What a purchase moves: first `price * quantity` of the payment asset from the buyer to
/// the owner, then the quantity of the listed asset from custody to the buyer. (Every balance
/// is taken to fit in an `i128`, as every balance in a book does.)
pub proof fn law_purchase_moves_the_price(
    world: World,
    auth: Seq<Authorization>,
    buyer: Identity,
    id: u64,
)
    requires
        world.wf(),
        world.buy_listing_verdict(auth, buyer, id) is Ok,
        world.balances[(world.market.config->0.payment_asset, buyer)] <= i128::MAX,
    ensures
        ({
            let listing = world.market.listings[id];
            let moved = world.market.transfers(
                Request::Guarded(Invocation::BuyListing { buyer, id }),
            );
            &&& moved.len() == 2
            &&& moved[0].asset == world.market.config->0.payment_asset
            &&& moved[0].from == buyer
            &&& moved[0].to == listing.owner
            &&& moved[0].amount == listing.price * listing.quantity
            &&& moved[1] == Transfer {
                asset: listing.asset,
                from: world.market.custodian,
                to: buyer,
                amount: listing.quantity,
            }
        }),
{
    let listing = world.market.listings[id];
    assert(listing.price * listing.quantity >= 0) by (nonlinear_arith)
        requires
            listing.price > 0,
            listing.quantity > 0,
    ;
}

/// The balances after a call that went through are the balances before it with the call's
/// transfers made in their order, and nothing else. (Every balance is taken to fit in an
/// `i128`, as every balance in a book does.)
pub proof fn law_balances_follow_the_transfers(
    world: World,
    auth: Seq<Authorization>,
    request: Request,
)
    requires
        world.wf(),
        world.step(auth, request).1 is Ok,
        forall|key: (AssetRef, Identity)| #[trigger] world.balances[key] <= i128::MAX,
    ensures
        world.step(auth, request).0.balances == replay(
            world.balances,
            world.market.transfers(request),
        ),
{
    let made = world.market.transfers(request);
    if let Request::Guarded(Invocation::BuyListing { buyer, id }) = request {
        law_purchase_moves_the_price(world, auth, buyer, id);
    }
    if made.len() == 1 {
        assert(made.drop_last() =~= Seq::<Transfer>::empty());
        assert(replay(world.balances, made.drop_last()) == world.balances);
    } else if made.len() == 2 {
        assert(made.drop_last() =~= seq![made[0]]);
        assert(made.drop_last().drop_last() =~= Seq::<Transfer>::empty());
        assert(replay(world.balances, made.drop_last().drop_last()) == world.balances);
        assert(replay(world.balances, made.drop_last()) == made[0].apply(world.balances));
    }
}

/// A purchase of an active listing, sanctioned by a buyer who holds less than
/// `price * quantity` of the payment asset, is refused with `InsufficientBalance`; no balance
/// moves and the listing stays as it is.
pub proof fn law_purchase_needs_the_price(
    world: World,
    auth: Seq<Authorization>,
    buyer: Identity,
    id: u64,
)
    requires
        world.market.config is Some,
        world.market.listings.contains_key(id),
        world.market.listings[id].listed,
        authorizes(auth, buyer, Invocation::BuyListing { buyer, id }),
        world.balances[(world.market.config->0.payment_asset, buyer)]
            < world.market.listings[id].price * world.market.listings[id].quantity,
    ensures
        world.step(auth, Request::Guarded(Invocation::BuyListing { buyer, id })) == (
            world,
            Err::<Reply, Error>(Error::InsufficientBalance),
        ),
{
}

/// Once a listing is paused, a purchase of it is refused with `NotListed` and changes
/// nothing. Once it is resumed, a purchase that the buyer sanctioned goes through exactly
/// when the buyer covers the price and custody covers the lot: balances and the listing's
/// terms are what they were before the pause.
pub proof fn law_pause_blocks_purchase_until_resumed(
    world: World,
    pause_auth: Seq<Authorization>,
    resume_auth: Seq<Authorization>,
    buy_auth: Seq<Authorization>,
    buyer: Identity,
    id: u64,
)
    requires
        world.set_listed_verdict(pause_auth, id, false) is Ok,
        world.after_set_listed(id, false).set_listed_verdict(resume_auth, id, true) is Ok,
    ensures
        ({
            let paused = world.step(
                pause_auth,
                Request::Guarded(Invocation::PauseListing { id }),
            ).0;
            let resumed = paused.step(
                resume_auth,
                Request::Guarded(Invocation::UnpauseListing { id }),
            ).0;
            let purchase = Request::Guarded(Invocation::BuyListing { buyer, id });
            let listing = world.market.listings[id];
            &&& paused.step(buy_auth, purchase) == (
                paused,
                Err::<Reply, Error>(Error::NotListed),
            )
            &&& resumed.balances == world.balances
            &&& resumed.market.listings == world.market.listings.insert(
                id,
                Listing { listed: true, ..listing },
            )
            &&& authorizes(buy_auth, buyer, Invocation::BuyListing { buyer, id }) ==> resumed.step(
                buy_auth,
                purchase,
            ).1 == if world.balances[(world.market.config->0.payment_asset, buyer)] < listing.price
                * listing.quantity || world.paid(buyer, id)[(
                listing.asset,
                world.market.custodian,
            )] < listing.quantity {
                Err::<Reply, Error>(Error::InsufficientBalance)
            } else {
                Ok(Reply::Done)
            }
        }),
{
    let paused = world.after_set_listed(id, false);
    let resumed = paused.after_set_listed(id, true);
    let listing = world.market.listings[id];
    assert(resumed.market.listings =~= world.market.listings.insert(
        id,
        Listing { listed: true, ..listing },
    ));
    assert(resumed.paid(buyer, id) == world.paid(buyer, id));
}

/// `update_price` of a listing on record, sanctioned by its owner, is refused with
/// `InvalidPrice` when the new price is not positive; the stored price, like everything else,
/// stays as it is.
pub proof fn law_invalid_price_is_refused(
    world: World,
    auth: Seq<Authorization>,
    id: u64,
    new_price: i128,
)
    requires
        world.market.config is Some,
        world.market.listings.contains_key(id),
        authorizes(
            auth,
            world.market.listings[id].owner,
            Invocation::UpdatePrice { id, new_price },
        ),
        new_price <= 0,
    ensures
        world.step(auth, Request::Guarded(Invocation::UpdatePrice { id, new_price })) == (
            world,
            Err::<Reply, Error>(Error::InvalidPrice),
        ),
{
}

/// A removal that goes through hands the whole quantity from custody back to the owner and
/// deletes the listing; no other balance changes. (An owner who is the custodian itself is
/// left out: nothing would move.)
pub proof fn law_removal_returns_the_lot(world: World, auth: Seq<Authorization>, id: u64)
    requires
        world.remove_listing_verdict(auth, id) is Ok,
        world.market.listings[id].owner != world.market.custodian,
    ensures
        ({
            let after = world.step(auth, Request::Guarded(Invocation::RemoveListing { id })).0;
            let listing = world.market.listings[id];
            &&& after.balances[(listing.asset, listing.owner)] == world.balances[(
                listing.asset,
                listing.owner,
            )] + listing.quantity
            &&& after.escrow(listing.asset) == world.escrow(listing.asset) - listing.quantity
            &&& forall|key: (AssetRef, Identity)|
                key != (listing.asset, listing.owner) && key != (
                    listing.asset,
                    world.market.custodian,
                ) ==> #[trigger] after.balances[key] == world.balances[key]
            &&& after.step(auth, Request::GetListing { id }).1 == Ok::<Reply, Error>(
                Reply::Found(None),
            )
        }),
{
}

/// A guarded call is refused as unauthorized only where the identity that has to sanction
/// it did not, and whether a call goes through depends on what was established only
/// through that one fact.
pub proof fn law_only_the_signer_matters(
    world: World,
    auth: Seq<Authorization>,
    other_auth: Seq<Authorization>,
    invocation: Invocation,
)
    ensures
        world.step(auth, Request::Guarded(invocation)).1 == Err::<Reply, Error>(
            Error::Unauthorized,
        ) ==> world.market.signer(invocation) is Some && !authorizes(
            auth,
            world.market.signer(invocation)->0,
            invocation,
        ),
        world.market.signer(invocation) matches Some(signer) && authorizes(
            auth,
            signer,
            invocation,
        ) == authorizes(other_auth, signer, invocation) ==> world.step(
            auth,
            Request::Guarded(invocation),
        ) == world.step(other_auth, Request::Guarded(invocation)),
        world.market.signer(invocation) is None ==> world.step(auth, Request::Guarded(invocation))
            == world.step(other_auth, Request::Guarded(invocation)),
{
}

/// A call looks at no balance but those of its accounts, and changes no other: in two
/// worlds with the same records that agree on these balances, it gets the same answer,
/// leaves the same records and announcements behind, and leaves these balances equal.
pub proof fn law_step_minds_only_its_accounts(
    world: World,
    other: World,
    auth: Seq<Authorization>,
    request: Request,
)
    requires
        world.market == other.market,
        world.events == other.events,
        forall|key: (AssetRef, Identity)|
            world.market.accounts(request).contains(key) ==> world.balances[key]
                == other.balances[key],
    ensures
        world.step(auth, request).1 == other.step(auth, request).1,
        world.step(auth, request).0.market == other.step(auth, request).0.market,
        world.step(auth, request).0.events == other.step(auth, request).0.events,
        forall|key: (AssetRef, Identity)|
            world.market.accounts(request).contains(key) ==> #[trigger] world.step(
                auth,
                request,
            ).0.balances[key] == other.step(auth, request).0.balances[key],
        forall|key: (AssetRef, Identity)|
            !world.market.accounts(request).contains(key) ==> #[trigger] world.step(
                auth,
                request,
            ).0.balances[key] == world.balances[key],
{
    match request {
        Request::Guarded(Invocation::BuyListing { buyer, id }) => {
            if world.market.config is Some && world.market.listings.contains_key(id) {
                let listing = world.market.listings[id];
                let payment = world.market.config->0.payment_asset;
                assert(world.market.accounts(request).contains((payment, buyer)));
                assert(world.market.accounts(request).contains((payment, listing.owner)));
                assert(world.market.accounts(request).contains(
                    (listing.asset, world.market.custodian),
                ));
                assert(world.market.accounts(request).contains((listing.asset, buyer)));
            }
        },
        Request::Guarded(Invocation::CreateListing { owner, asset, .. }) => {
            assert(world.market.accounts(request).contains((asset, owner)));
            assert(world.market.accounts(request).contains((asset, world.market.custodian)));
        },
        Request::Guarded(Invocation::RemoveListing { id }) => {
            if world.market.listings.contains_key(id) {
                let listing = world.market.listings[id];
                assert(world.market.accounts(request).contains(
                    (listing.asset, world.market.custodian),
                ));
                assert(world.market.accounts(request).contains((listing.asset, listing.owner)));
            }
        },
        _ => {},
    }
}

/// Every call leaves the records well-formed and nobody in debt.
pub proof fn law_step_keeps_world_well_formed(
    world: World,
    auth: Seq<Authorization>,
    request: Request,
)
    requires
        world.wf(),
        world.market.next_id < u64::MAX,
    ensures
        world.step(auth, request).0.wf(),
{
    match request {
        Request::Guarded(Invocation::BuyListing { buyer, id }) => {
            if world.buy_listing_verdict(auth, buyer, id) is Ok {
                let listing = world.market.listings[id];
                assert(listing.price * listing.quantity >= 0) by (nonlinear_arith)
                    requires
                        listing.price > 0,
                        listing.quantity > 0,
                ;
                assert(valid_balances(world.paid(buyer, id)));
            }
        },
        _ => {},
    }
}

/// An identifier that was assigned and whose listing is gone is never on record again.
pub proof fn law_gone_is_final(world: World, commands: Seq<Command>, id: u64)
    requires
        world.market.config is Some,
        1 <= id <= world.market.next_id,
        !world.market.listings.contains_key(id),
        world.market.next_id + commands.len() < u64::MAX,
    ensures
        !world.run(commands).market.listings.contains_key(id),
        world.market.next_id <= world.run(commands).market.next_id <= world.market.next_id
            + commands.len(),
    decreases commands.len(),
{
    if commands.len() > 0 {
        law_gone_is_final(world, commands.drop_last(), id);
        law_configuration_is_permanent(world, commands.drop_last());
    }
}

/// Where two registries differ at most in the listing stored under `changed`, what they
/// offer of an asset differs by what that listing offers of it.
proof fn lemma_escrowed_differs_by_one(
    before: Map<u64, Listing>,
    after: Map<u64, Listing>,
    asset: AssetRef,
    upto: nat,
    changed: u64,
)
    requires
        upto <= u64::MAX,
        forall|id: u64|
            id != changed ==> offered(after, asset, id) == #[trigger] offered(before, asset, id),
    ensures
        escrowed(after, asset, upto) == escrowed(before, asset, upto) + if 1 <= changed <= upto {
            offered(after, asset, changed) - offered(before, asset, changed)
        } else {
            0
        },
    decreases upto,
{
    if upto > 0 {
        lemma_escrowed_differs_by_one(before, after, asset, (upto - 1) as nat, changed);
    }
}

/// No listing offers more of an asset than all listings together.
proof fn lemma_offer_within_escrowed(
    listings: Map<u64, Listing>,
    asset: AssetRef,
    upto: nat,
    id: u64,
)
    requires
        upto <= u64::MAX,
        valid_listings(listings),
    ensures
        0 <= escrowed(listings, asset, upto),
        1 <= id <= upto ==> offered(listings, asset, id) <= escrowed(listings, asset, upto),
    decreases upto,
{
    if upto > 0 {
        lemma_offer_within_escrowed(listings, asset, (upto - 1) as nat, id);
    }
}

/// Custody stays solvent: if it holds, of every asset, at least what the listings offer of
/// it, then it still does after any call, as long as the custodian does not itself come
/// forward as the owner of a new listing or as a buyer.
pub proof fn law_step_keeps_custody_solvent(
    world: World,
    auth: Seq<Authorization>,
    request: Request,
)
    requires
        world.wf(),
        world.solvent(),
        world.market.next_id < u64::MAX,
        request.payer() != Some(world.market.custodian),
    ensures
        world.step(auth, request).0.solvent(),
{
    let after = world.step(auth, request).0;
    let before_listings = world.market.listings;
    let after_listings = after.market.listings;
    let upto = world.market.next_id as nat;
    assert forall|asset: AssetRef| #[trigger]
        after.escrow(asset) >= escrowed(after_listings, asset, after.market.next_id as nat) by {
        assert(world.escrow(asset) >= escrowed(before_listings, asset, upto));
        if world.step(auth, request).1 is Ok {
            match request {
                Request::Initialize { .. } => {
                    assert(after_listings =~= Map::<u64, Listing>::empty());
                },
                Request::GetListing { .. } => {},
                Request::Guarded(invocation) => {
                    let changed = match invocation {
                        Invocation::CreateListing { .. } => (world.market.next_id + 1) as u64,
                        Invocation::UpdatePrice { id, .. } => id,
                        Invocation::PauseListing { id } => id,
                        Invocation::UnpauseListing { id } => id,
                        Invocation::BuyListing { id, .. } => id,
                        Invocation::RemoveListing { id } => id,
                    };
                    if invocation is BuyListing {
                        let listing = before_listings[changed];
                        assert(listing.price * listing.quantity >= 0) by (nonlinear_arith)
                            requires
                                listing.price > 0,
                                listing.quantity > 0,
                        ;
                    }
                    lemma_escrowed_differs_by_one(
                        before_listings,
                        after_listings,
                        asset,
                        upto,
                        changed,
                    );
                },
            }
        }
    }
}

/// From solvent custody every lot on record can be handed out: a removal is never refused
/// for want of funds, and a purchase is refused for want of funds only when the buyer does
/// not cover the price (a buyer who is the custodian itself is left out).
pub proof fn law_solvent_custody_delivers(
    world: World,
    auth: Seq<Authorization>,
    buyer: Identity,
    id: u64,
)
    requires
        world.wf(),
        world.solvent(),
    ensures
        world.remove_listing_verdict(auth, id) != Err::<(), Error>(Error::InsufficientBalance),
        world.buy_listing_verdict(auth, buyer, id) == Err::<(), Error>(Error::InsufficientBalance)
            && buyer != world.market.custodian ==> world.balances[(
            world.market.config->0.payment_asset,
            buyer,
        )] < world.market.listings[id].price * world.market.listings[id].quantity,
{
    if world.market.listings.contains_key(id) {
        let listing = world.market.listings[id];
        lemma_offer_within_escrowed(
            world.market.listings,
            listing.asset,
            world.market.next_id as nat,
            id,
        );
        assert(world.escrow(listing.asset) >= escrowed(
            world.market.listings,
            listing.asset,
            world.market.next_id as nat,
        ));
        assert(listing.price * listing.quantity >= 0) by (nonlinear_arith)
            requires
                listing.price > 0,
                listing.quantity > 0,
        ;
    }
}

/// The records stay well-formed and custody stays solvent over any calls, as long as the
/// counter does not run out and the custodian does not itself come forward as the owner of
/// a new listing or as a buyer.
pub proof fn law_run_keeps_invariants(world: World, commands: Seq<Command>)
    requires
        world.wf(),
        world.solvent(),
        world.market.next_id + commands.len() < u64::MAX,
        forall|k: int|
            0 <= k < commands.len() ==> (#[trigger] commands[k]).request.payer() != Some(
                world.market.custodian,
            ),
    ensures
        world.run(commands).wf(),
        world.run(commands).solvent(),
        world.run(commands).market.custodian == world.market.custodian,
        world.run(commands).market.next_id <= world.market.next_id + commands.len(),
    decreases commands.len(),
{
    if commands.len() > 0 {
        let earlier = commands.drop_last();
        assert forall|k: int| 0 <= k < earlier.len() implies (#[trigger] earlier[k]).request.payer()
            != Some(world.market.custodian) by {
            assert(earlier[k] == commands[k]);
        }
        law_run_keeps_invariants(world, earlier);
        law_step_keeps_world_well_formed(
            world.run(earlier),
            commands.last().auth,
            commands.last().request,
        );
        law_step_keeps_custody_solvent(
            world.run(earlier),
            commands.last().auth,
            commands.last().request,
        );
    }
}

} // verus!
