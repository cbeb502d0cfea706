//! A book of balances: what each holder owns of each asset, and a journal of what was moved.
//!
//! The book is the marketplace's picture of the transfer service it settles through. Units
//! are only ever moved between holders or minted; none can vanish or appear on the way. The
//! journal lists the transfers that were made, in order, so that whoever keeps the real
//! accounts can carry them out.

use crate::error::Error;
use crate::identity::{AssetRef, Identity};
use vstd::prelude::*;

verus! {

/// What every holder owns of every asset. A holder without an account owns nothing.
pub type Balances = Map<(AssetRef, Identity), int>;

/// The balances after `amount` units of `asset` went from `from` to `to`.
pub open spec fn moved(
    balances: Balances,
    asset: AssetRef,
    from: Identity,
    to: Identity,
    amount: int,
) -> Balances {
    let debited = balances.insert((asset, from), balances[(asset, from)] - amount);
    debited.insert((asset, to), debited[(asset, to)] + amount)
}

/// A movement of `amount` units of `asset` from `from` to `to`.
#[derive(Clone, Copy, Debug, PartialEq, Eq, Structural)]
pub struct Transfer {
    pub asset: AssetRef,
    pub from: Identity,
    pub to: Identity,
    pub amount: i128,
}

impl Transfer {
    /// The balances after this transfer.
    pub open spec fn apply(self, balances: Balances) -> Balances {
        moved(balances, self.asset, self.from, self.to, self.amount as int)
    }

    /// The balances after this transfer was taken back.
    pub open spec fn revert(self, balances: Balances) -> Balances {
        moved(balances, self.asset, self.to, self.from, self.amount as int)
    }
}

/// The balances after `transfers` were made one after the other.
pub open spec fn replay(balances: Balances, transfers: Seq<Transfer>) -> Balances
    decreases transfers.len(),
{
    if transfers.len() == 0 {
        balances
    } else {
        transfers.last().apply(replay(balances, transfers.drop_last()))
    }
}

/// A book in which every holder of every asset has a balance, and none is in debt.
pub open spec fn valid_balances(balances: Balances) -> bool {
    &&& forall|key: (AssetRef, Identity)| balances.dom().contains(key)
    &&& forall|key: (AssetRef, Identity)| 0 <= #[trigger] balances[key]
}

/// One line of the book.
#[derive(Clone, Copy, Debug, PartialEq, Eq, Structural)]
struct Account {
    asset: AssetRef,
    holder: Identity,
    amount: i128,
}

/// Why a mint was refused.
#[derive(Clone, Copy, Debug, PartialEq, Eq, Structural)]
pub enum MintError {
    /// The amount was negative.
    NegativeAmount,
    /// The asset's total supply would no longer fit in an `i128`.
    SupplyOverflow,
}

/// The book itself.
#[derive(Debug)]
pub struct Ledger {
    accounts: Vec<Account>,
    journal: Vec<Transfer>,
}

/// `accounts[at]` is the line of `holder` for `asset`.
spec fn is_line(accounts: Seq<Account>, at: int, asset: AssetRef, holder: Identity) -> bool {
    &&& 0 <= at < accounts.len()
    &&& accounts[at].asset == asset
    &&& accounts[at].holder == holder
}

/// What `holder` owns of `asset` according to `accounts`.
spec fn balance_in(accounts: Seq<Account>, asset: AssetRef, holder: Identity) -> int {
    if exists|at: int| is_line(accounts, at, asset, holder) {
        accounts[choose|at: int| is_line(accounts, at, asset, holder)].amount as int
    } else {
        0
    }
}

/// The sum of what all holders own of `asset` according to `accounts`.
spec fn supply_in(accounts: Seq<Account>, asset: AssetRef) -> int
    decreases accounts.len(),
{
    if accounts.len() == 0 {
        0
    } else {
        supply_in(accounts.drop_last(), asset) + if accounts.last().asset == asset {
            accounts.last().amount as int
        } else {
            0
        }
    }
}

/// No holder has two lines for one asset.
spec fn one_line_each(accounts: Seq<Account>) -> bool {
    forall|i: int, j: int|
        0 <= i < j < accounts.len() ==> !(accounts[i].asset == accounts[j].asset
            && accounts[i].holder == accounts[j].holder)
}

spec fn no_debt(accounts: Seq<Account>) -> bool {
    forall|i: int| 0 <= i < accounts.len() ==> (#[trigger] accounts[i]).amount >= 0
}

spec fn supplies_fit(accounts: Seq<Account>) -> bool {
    forall|asset: AssetRef| #[trigger] supply_in(accounts, asset) <= i128::MAX
}

spec fn sound(accounts: Seq<Account>) -> bool {
    &&& one_line_each(accounts)
    &&& no_debt(accounts)
    &&& supplies_fit(accounts)
}

/// `accounts` with the amount of the line at `at` replaced.
spec fn with_amount(accounts: Seq<Account>, at: int, amount: i128) -> Seq<Account> {
    accounts.update(
        at,
        Account { asset: accounts[at].asset, holder: accounts[at].holder, amount },
    )
}

proof fn lemma_balance_at(accounts: Seq<Account>, at: int, asset: AssetRef, holder: Identity)
    requires
        one_line_each(accounts),
        is_line(accounts, at, asset, holder),
    ensures
        balance_in(accounts, asset, holder) == accounts[at].amount,
{
    let chosen = choose|k: int| is_line(accounts, k, asset, holder);
    assert(is_line(accounts, chosen, asset, holder));
    if chosen < at {
        assert(!(accounts[chosen].asset == accounts[at].asset && accounts[chosen].holder
            == accounts[at].holder));
    } else if at < chosen {
        assert(!(accounts[at].asset == accounts[chosen].asset && accounts[at].holder
            == accounts[chosen].holder));
    }
}

proof fn lemma_balance_absent(accounts: Seq<Account>, asset: AssetRef, holder: Identity)
    requires
        forall|at: int| !is_line(accounts, at, asset, holder),
    ensures
        balance_in(accounts, asset, holder) == 0,
{
}

/// Changing the amount of one line changes the supply of its asset by the difference.
proof fn lemma_supply_after_set(accounts: Seq<Account>, at: int, amount: i128, asset: AssetRef)
    requires
        0 <= at < accounts.len(),
    ensures
        supply_in(
            with_amount(accounts, at, amount),
            asset,
        ) == supply_in(accounts, asset) + if accounts[at].asset == asset {
            amount - accounts[at].amount
        } else {
            0
        },
    decreases accounts.len(),
{
    let after = with_amount(accounts, at, amount);
    if at == accounts.len() - 1 {
        assert(after.drop_last() =~= accounts.drop_last());
    } else {
        assert(after.drop_last() =~= with_amount(accounts.drop_last(), at, amount));
        lemma_supply_after_set(accounts.drop_last(), at, amount, asset);
    }
}

proof fn lemma_supply_after_push(accounts: Seq<Account>, line: Account, asset: AssetRef)
    ensures
        supply_in(accounts.push(line), asset) == supply_in(accounts, asset) + if line.asset
            == asset {
            line.amount as int
        } else {
            0
        },
{
    assert(accounts.push(line).drop_last() =~= accounts);
}

/// Without debt, no line holds more than the supply of its asset.
proof fn lemma_line_within_supply(accounts: Seq<Account>, at: int, asset: AssetRef)
    requires
        no_debt(accounts),
        0 <= at < accounts.len(),
    ensures
        0 <= supply_in(accounts, asset),
        accounts[at].asset == asset ==> accounts[at].amount <= supply_in(accounts, asset),
    decreases accounts.len(),
{
    lemma_supply_not_negative(accounts.drop_last(), asset);
    if at < accounts.len() - 1 {
        lemma_line_within_supply(accounts.drop_last(), at, asset);
    }
}

proof fn lemma_supply_not_negative(accounts: Seq<Account>, asset: AssetRef)
    requires
        no_debt(accounts),
    ensures
        0 <= supply_in(accounts, asset),
    decreases accounts.len(),
{
    if accounts.len() > 0 {
        lemma_supply_not_negative(accounts.drop_last(), asset);
    }
}

/// The balances after the line at `at` was set to `amount`.
proof fn lemma_balances_after_set(accounts: Seq<Account>, at: int, amount: i128)
    requires
        one_line_each(accounts),
        0 <= at < accounts.len(),
    ensures
        one_line_each(with_amount(accounts, at, amount)),
        forall|asset: AssetRef, holder: Identity|
            #[trigger] balance_in(with_amount(accounts, at, amount), asset, holder) == if asset
                == accounts[at].asset && holder == accounts[at].holder {
                amount as int
            } else {
                balance_in(accounts, asset, holder)
            },
{
    let after = with_amount(accounts, at, amount);
    assert forall|k: int, asset: AssetRef, holder: Identity|
        is_line(after, k, asset, holder) == is_line(accounts, k, asset, holder) by {}
    assert(one_line_each(after)) by {
        assert forall|i: int, j: int| 0 <= i < j < after.len() implies !(after[i].asset
            == after[j].asset && after[i].holder == after[j].holder) by {
            assert(after[i].asset == accounts[i].asset && after[i].holder == accounts[i].holder);
            assert(after[j].asset == accounts[j].asset && after[j].holder == accounts[j].holder);
        }
    }
    assert forall|asset: AssetRef, holder: Identity|
        #[trigger] balance_in(after, asset, holder) == if asset == accounts[at].asset && holder
            == accounts[at].holder {
            amount as int
        } else {
            balance_in(accounts, asset, holder)
        } by {
        if exists|k: int| is_line(accounts, k, asset, holder) {
            let k = choose|k: int| is_line(accounts, k, asset, holder);
            assert(is_line(after, k, asset, holder));
            lemma_balance_at(after, k, asset, holder);
            lemma_balance_at(accounts, k, asset, holder);
            if asset == accounts[at].asset && holder == accounts[at].holder {
                assert(is_line(accounts, at, asset, holder));
                lemma_balance_at(accounts, at, asset, holder);
                lemma_balance_at(after, at, asset, holder);
            } else {
                assert(k != at);
            }
        } else {
            assert(!is_line(accounts, at, asset, holder));
            assert forall|k: int| !is_line(after, k, asset, holder) by {
                assert(!is_line(accounts, k, asset, holder));
            }
        }
    }
}

/// The balances after a line for a holder who had none was added.
proof fn lemma_balances_after_push(accounts: Seq<Account>, line: Account)
    requires
        one_line_each(accounts),
        forall|at: int| !is_line(accounts, at, line.asset, line.holder),
    ensures
        one_line_each(accounts.push(line)),
        forall|asset: AssetRef, holder: Identity|
            #[trigger] balance_in(accounts.push(line), asset, holder) == if asset == line.asset
                && holder == line.holder {
                line.amount as int
            } else {
                balance_in(accounts, asset, holder)
            },
{
    let after = accounts.push(line);
    assert forall|i: int, j: int| 0 <= i < j < after.len() implies !(after[i].asset
        == after[j].asset && after[i].holder == after[j].holder) by {
        if j == accounts.len() {
            assert(!is_line(accounts, i, line.asset, line.holder));
        }
    }
    assert forall|asset: AssetRef, holder: Identity|
        #[trigger] balance_in(after, asset, holder) == if asset == line.asset && holder
            == line.holder {
            line.amount as int
        } else {
            balance_in(accounts, asset, holder)
        } by {
        if asset == line.asset && holder == line.holder {
            assert(is_line(after, accounts.len() as int, asset, holder));
            lemma_balance_at(after, accounts.len() as int, asset, holder);
        } else if exists|k: int| is_line(after, k, asset, holder) {
            let k = choose|k: int| is_line(after, k, asset, holder);
            assert(is_line(accounts, k, asset, holder));
            lemma_balance_at(after, k, asset, holder);
            lemma_balance_at(accounts, k, asset, holder);
        } else {
            assert forall|k: int| !is_line(accounts, k, asset, holder) by {
                if is_line(accounts, k, asset, holder) {
                    assert(is_line(after, k, asset, holder));
                }
            }
        }
    }
}

impl View for Ledger {
    type V = Balances;

    closed spec fn view(&self) -> Balances {
        Map::total(|key: (AssetRef, Identity)| balance_in(self.accounts@, key.0, key.1))
    }
}

impl Ledger {
    /// The book keeps one line for a holder of an asset, nobody is in debt, and the supply
    /// of every asset fits in an `i128`. Every book that this module hands out is such a book.
    pub closed spec fn wf(&self) -> bool {
        &&& sound(self.accounts@)
        &&& forall|k: int|
            0 <= k < self.journal@.len() ==> (#[trigger] self.journal@[k]).amount >= 0
    }

    /// The transfers made so far, oldest first.
    pub closed spec fn journal(&self) -> Seq<Transfer> {
        self.journal@
    }

    /// In a well-formed book every holder has a balance, between zero and `i128::MAX`.
    pub proof fn lemma_balances_valid(&self)
        requires
            self.wf(),
        ensures
            valid_balances(self@),
            forall|key: (AssetRef, Identity)| #[trigger] self@[key] <= i128::MAX,
    {
        assert forall|key: (AssetRef, Identity)| 0 <= #[trigger] self@[key] <= i128::MAX by {
            if exists|at: int| is_line(self.accounts@, at, key.0, key.1) {
                let at = choose|at: int| is_line(self.accounts@, at, key.0, key.1);
                assert(self.accounts@[at].amount >= 0);
            }
        }
    }

    /// The sum of what all holders own of `asset`.
    pub closed spec fn supply(&self, asset: AssetRef) -> int {
        supply_in(self.accounts@, asset)
    }

    /// In a well-formed book nobody owns more of an asset than there is of it, and there is
    /// no more of it than fits in an `i128`.
    pub proof fn lemma_balance_within_supply(&self, asset: AssetRef, holder: Identity)
        requires
            self.wf(),
        ensures
            0 <= self@[(asset, holder)] <= self.supply(asset) <= i128::MAX,
    {
        lemma_supply_not_negative(self.accounts@, asset);
        if exists|at: int| is_line(self.accounts@, at, asset, holder) {
            let at = choose|at: int| is_line(self.accounts@, at, asset, holder);
            lemma_line_within_supply(self.accounts@, at, asset);
        }
    }

    /// A book in which nobody owns anything and nothing was moved.
    pub fn new() -> (ledger: Ledger)
        ensures
            ledger.wf(),
            ledger.journal() == Seq::<Transfer>::empty(),
            forall|key: (AssetRef, Identity)| #[trigger] ledger@[key] == 0,
            forall|asset: AssetRef| #[trigger] ledger.supply(asset) == 0,
    {
        Ledger { accounts: Vec::new(), journal: Vec::new() }
    }

    /// The place of the line of `holder` for `asset`, if there is one.
    fn find(&self, asset: AssetRef, holder: Identity) -> (found: Option<usize>)
        ensures
            match found {
                Some(at) => is_line(self.accounts@, at as int, asset, holder),
                None => forall|at: int| !is_line(self.accounts@, at, asset, holder),
            },
    {
        let mut at: usize = 0;
        while at < self.accounts.len()
            invariant
                at <= self.accounts.len(),
                forall|k: int| 0 <= k < at ==> !is_line(self.accounts@, k, asset, holder),
            decreases self.accounts.len() - at,
        {
            if self.accounts[at].asset == asset && self.accounts[at].holder == holder {
                return Some(at);
            }
            at += 1;
        }
        None
    }

    /// What `holder` owns of `asset`.
    pub fn balance(&self, asset: AssetRef, holder: Identity) -> (amount: i128)
        requires
            self.wf(),
        ensures
            amount == self@[(asset, holder)],
            amount >= 0,
    {
        proof {
            self.lemma_balances_valid();
        }
        match self.find(asset, holder) {
            Some(at) => {
                proof {
                    lemma_balance_at(self.accounts@, at as int, asset, holder);
                }
                self.accounts[at].amount
            },
            None => 0,
        }
    }

    /// The sum of what all holders own of `asset`.
    pub fn total_supply(&self, asset: AssetRef) -> (total: i128)
        requires
            self.wf(),
        ensures
            total == self.supply(asset),
            total >= 0,
    {
        let mut total: i128 = 0;
        let mut at: usize = 0;
        while at < self.accounts.len()
            invariant
                at <= self.accounts.len(),
                sound(self.accounts@),
                total == supply_in(self.accounts@.take(at as int), asset),
                0 <= total,
            decreases self.accounts.len() - at,
        {
            proof {
                let upto = self.accounts@.take(at + 1);
                assert(upto.drop_last() =~= self.accounts@.take(at as int));
                lemma_supply_prefix(self.accounts@, at + 1, asset);
            }
            if self.accounts[at].asset == asset {
                total = total + self.accounts[at].amount;
            }
            at += 1;
        }
        proof {
            assert(self.accounts@.take(at as int) =~= self.accounts@);
        }
        total
    }

    /// Sets the amount of the line at `at`.
    fn set_amount(&mut self, at: usize, amount: i128)
        requires
            old(self).wf(),
            at < old(self).accounts@.len(),
            amount >= 0,
            old(self).supply(old(self).accounts@[at as int].asset) + amount - old(
                self,
            ).accounts@[at as int].amount <= i128::MAX,
        ensures
            final(self).wf(),
            final(self).journal() == old(self).journal(),
            final(self).accounts@ == with_amount(old(self).accounts@, at as int, amount),
            final(self)@ == old(self)@.insert(
                (old(self).accounts@[at as int].asset, old(self).accounts@[at as int].holder),
                amount as int,
            ),
            forall|asset: AssetRef| #[trigger]
                final(self).supply(asset) == old(self).supply(asset) + if asset == old(
                    self,
                ).accounts@[at as int].asset {
                    amount - old(self).accounts@[at as int].amount
                } else {
                    0
                },
    {
        let line = self.accounts[at];
        let ghost before = self.accounts@;
        let ghost after = with_amount(before, at as int, amount);
        proof {
            lemma_balances_after_set(before, at as int, amount);
            assert forall|asset: AssetRef| #[trigger]
                supply_in(after, asset) == supply_in(before, asset) + if asset == line.asset {
                    amount - line.amount
                } else {
                    0
                } by {
                lemma_supply_after_set(before, at as int, amount, asset);
            }
            assert(sound(after));
        }
        self.accounts.set(at, Account { asset: line.asset, holder: line.holder, amount });
        assert(self.accounts@ == after);
        assert(self@ =~= old(self)@.insert((line.asset, line.holder), amount as int));
    }

    /// Adds `amount` to what `to` owns of `asset`.
    fn credit(&mut self, asset: AssetRef, to: Identity, amount: i128)
        requires
            old(self).wf(),
            amount >= 0,
            old(self).supply(asset) + amount <= i128::MAX,
        ensures
            final(self).wf(),
            final(self).journal() == old(self).journal(),
            final(self)@ == old(self)@.insert((asset, to), old(self)@[(asset, to)] + amount),
            forall|other: AssetRef| #[trigger]
                final(self).supply(other) == old(self).supply(other) + if other == asset {
                    amount as int
                } else {
                    0
                },
    {
        match self.find(asset, to) {
            Some(at) => {
                proof {
                    lemma_balance_at(self.accounts@, at as int, asset, to);
                    lemma_line_within_supply(self.accounts@, at as int, asset);
                }
                let owned = self.accounts[at].amount;
                self.set_amount(at, owned + amount);
            },
            None => {
                let line = Account { asset, holder: to, amount };
                let ghost before = self.accounts@;
                proof {
                    lemma_balance_absent(before, asset, to);
                    lemma_balances_after_push(before, line);
                    assert forall|other: AssetRef| #[trigger]
                        supply_in(before.push(line), other) == supply_in(before, other)
                            + if other == asset {
                            amount as int
                        } else {
                            0
                        } by {
                        lemma_supply_after_push(before, line, other);
                    }
                    assert(sound(before.push(line)));
                }
                self.accounts.push(line);
                assert(self@ =~= old(self)@.insert((asset, to), old(self)@[(asset, to)] + amount));
            },
        }
    }

    /// Creates `amount` new units of `asset` and gives them to `to`. The journal, which
    /// lists movements between holders, takes no note of it.
    ///
    /// Refused when `amount` is negative, and when the asset's supply would exceed
    /// `i128::MAX`; the book is then unchanged.
    pub fn mint(&mut self, asset: AssetRef, to: Identity, amount: i128) -> (result: Result<
        (),
        MintError,
    >)
        requires
            old(self).wf(),
        ensures
            final(self).wf(),
            final(self).journal() == old(self).journal(),
            result == if amount < 0 {
                Err::<(), MintError>(MintError::NegativeAmount)
            } else if old(self).supply(asset) + amount > i128::MAX {
                Err(MintError::SupplyOverflow)
            } else {
                Ok(())
            },
            result is Ok ==> final(self)@ == old(self)@.insert(
                (asset, to),
                old(self)@[(asset, to)] + amount,
            ),
            result is Err ==> final(self)@ == old(self)@,
            forall|other: AssetRef| #[trigger]
                final(self).supply(other) == old(self).supply(other) + if result is Ok && other
                    == asset {
                    amount as int
                } else {
                    0
                },
    {
        proof {
            self.lemma_balances_valid();
        }
        if amount < 0 {
            return Err(MintError::NegativeAmount);
        }
        let supply = self.total_supply(asset);
        if supply > i128::MAX - amount {
            return Err(MintError::SupplyOverflow);
        }
        self.credit(asset, to, amount);
        proof {
            self.lemma_balances_valid();
        }
        Ok(())
    }

    /// Moves `amount` units of `asset` from `from` to `to`, and notes the move in the journal.
    ///
    /// The move is made exactly when `from` covers it, that is when
    /// `0 <= amount <= balance(asset, from)`. Otherwise nothing changes.
    pub fn transfer(
        &mut self,
        asset: AssetRef,
        from: Identity,
        to: Identity,
        amount: i128,
    ) -> (result: Result<(), Error>)
        requires
            old(self).wf(),
        ensures
            final(self).wf(),
            result == if 0 <= amount <= old(self)@[(asset, from)] {
                Ok::<(), Error>(())
            } else {
                Err(Error::InsufficientBalance)
            },
            result is Ok ==> {
                &&& final(self)@ == moved(old(self)@, asset, from, to, amount as int)
                &&& final(self).journal() == old(self).journal().push(
                    Transfer { asset, from, to, amount },
                )
            },
            result is Err ==> final(self)@ == old(self)@ && final(self).journal() == old(
                self,
            ).journal(),
            forall|other: AssetRef| #[trigger] final(self).supply(other) == old(self).supply(other),
    {
        proof {
            self.lemma_balances_valid();
        }
        if amount < 0 {
            return Err(Error::InsufficientBalance);
        }
        match self.find(asset, from) {
            None => {
                proof {
                    lemma_balance_absent(self.accounts@, asset, from);
                }
                if amount > 0 {
                    return Err(Error::InsufficientBalance);
                }
                assert(self@ =~= moved(self@, asset, from, to, 0));
            },
            Some(at) => {
                proof {
                    lemma_balance_at(self.accounts@, at as int, asset, from);
                    lemma_line_within_supply(self.accounts@, at as int, asset);
                }
                let owned = self.accounts[at].amount;
                if owned < amount {
                    return Err(Error::InsufficientBalance);
                }
                self.set_amount(at, owned - amount);
                self.credit(asset, to, amount);
            },
        }
        let ghost moved_book = *self;
        self.journal.push(Transfer { asset, from, to, amount });
        assert forall|other: AssetRef| #[trigger] self.supply(other) == old(self).supply(other) by {
            assert(moved_book.supply(other) == old(self).supply(other));
        }
        Ok(())
    }

    /// Takes back the transfer that was made last: its amount returns from the receiver to
    /// the sender, and its entry leaves the journal.
    ///
    /// This is done, and `true` returned, exactly when there is such a transfer and the
    /// receiver still covers its amount. Otherwise nothing changes.
    pub fn undo_last(&mut self) -> (undone: bool)
        requires
            old(self).wf(),
        ensures
            final(self).wf(),
            undone == (old(self).journal().len() > 0 && old(self).journal().last().amount <= old(
                self,
            )@[(old(self).journal().last().asset, old(self).journal().last().to)]),
            undone ==> {
                &&& final(self)@ == old(self).journal().last().revert(old(self)@)
                &&& final(self).journal() == old(self).journal().drop_last()
            },
            !undone ==> final(self)@ == old(self)@ && final(self).journal() == old(self).journal(),
            forall|other: AssetRef| #[trigger] final(self).supply(other) == old(self).supply(other),
    {
        proof {
            self.lemma_balances_valid();
        }
        let made = self.journal.len();
        if made == 0 {
            return false;
        }
        let last = self.journal[made - 1];
        match self.find(last.asset, last.to) {
            None => {
                proof {
                    lemma_balance_absent(self.accounts@, last.asset, last.to);
                }
                if last.amount > 0 {
                    return false;
                }
                assert(self@ =~= last.revert(self@));
            },
            Some(at) => {
                proof {
                    lemma_balance_at(self.accounts@, at as int, last.asset, last.to);
                    lemma_line_within_supply(self.accounts@, at as int, last.asset);
                }
                let owned = self.accounts[at].amount;
                if owned < last.amount {
                    return false;
                }
                self.set_amount(at, owned - last.amount);
                self.credit(last.asset, last.from, last.amount);
            },
        }
        let ghost moved_book = *self;
        self.journal.pop();
        assert(self.journal@ =~= old(self).journal@.drop_last());
        assert forall|other: AssetRef| #[trigger] self.supply(other) == old(self).supply(other) by {
            assert(moved_book.supply(other) == old(self).supply(other));
        }
        true
    }

    /// The transfers made so far, oldest first.
    pub fn transfers(&self) -> (transfers: &Vec<Transfer>)
        ensures
            transfers@ == self.journal(),
    {
        &self.journal
    }
}

proof fn lemma_supply_prefix(accounts: Seq<Account>, upto: int, asset: AssetRef)
    requires
        no_debt(accounts),
        0 <= upto <= accounts.len(),
    ensures
        0 <= supply_in(accounts.take(upto), asset) <= supply_in(accounts, asset),
    decreases accounts.len() - upto,
{
    lemma_supply_not_negative(accounts.take(upto), asset);
    if upto < accounts.len() {
        lemma_supply_prefix(accounts, upto + 1, asset);
        assert(accounts.take(upto + 1).drop_last() =~= accounts.take(upto));
    } else {
        assert(accounts.take(upto) =~= accounts);
    }
}

} // verus!
