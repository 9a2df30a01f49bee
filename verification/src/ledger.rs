//! The asset ledger the engine drives: a registry of created fungible
//! assets and a balance book, with transfer, mint, burn and create
//! operations whose contracts state exactly when they succeed and what
//! they change.
//!
//! The engine never persists pool state of its own: pool reserves and LP
//! supplies are balances and issuances read from here on demand.

use vstd::prelude::*;

verus! {

/// Failures reported by the ledger itself, propagated to callers
/// unchanged.
#[derive(Clone, Copy, Debug, PartialEq, Eq, Structural)]
pub enum LedgerError {
    /// The asset has not been created.
    UnknownAsset,
    /// An asset with this id has already been created.
    AssetAlreadyExists,
    /// The source account holds less than the requested amount.
    InsufficientBalance,
    /// A balance or a total supply would leave the representable range.
    Overflow,
}

/// A created fungible asset: its id, administrative owner, minimum
/// balance, and total issuance.
struct AssetRecord {
    id: u32,
    owner: u64,
    min_balance: u128,
    supply: u128,
}

/// One account's holding of one asset.
struct BalanceRecord {
    asset: u32,
    account: u64,
    amount: u128,
}

/// The ledger: every created asset and every account balance.
pub struct Ledger {
    assets: Vec<AssetRecord>,
    balances: Vec<BalanceRecord>,
}

impl Ledger {
    /// There is a record for `asset` at index `i` of the registry.
    spec fn asset_idx_is(self, asset: u32, i: int) -> bool {
        0 <= i < self.assets@.len() && self.assets@[i].id == asset
    }

    /// The asset has been created.
    pub closed spec fn asset_exists(self, asset: u32) -> bool {
        exists|i: int| self.asset_idx_is(asset, i)
    }

    /// The total issuance of an asset; 0 for an asset never created.
    pub closed spec fn supply_of(self, asset: u32) -> u128 {
        if self.asset_exists(asset) {
            self.assets@[choose|i: int| self.asset_idx_is(asset, i)].supply
        } else {
            0
        }
    }

    /// There is a balance entry for (`asset`, `account`) at index `i`.
    spec fn balance_idx_is(self, asset: u32, account: u64, i: int) -> bool {
        &&& 0 <= i < self.balances@.len()
        &&& self.balances@[i].asset == asset
        &&& self.balances@[i].account == account
    }

    spec fn balance_entry_exists(self, asset: u32, account: u64) -> bool {
        exists|i: int| self.balance_idx_is(asset, account, i)
    }

    /// The balance of `account` in `asset`; 0 without an entry.
    pub closed spec fn balance_of(self, asset: u32, account: u64) -> u128 {
        if self.balance_entry_exists(asset, account) {
            self.balances@[choose|i: int| self.balance_idx_is(asset, account, i)].amount
        } else {
            0
        }
    }

    /// Every asset id names at most one record, every (asset, account)
    /// pair names at most one balance entry, and an asset never created
    /// has no nonzero holding.
    pub closed spec fn well_formed(self) -> bool {
        &&& forall|i: int, j: int|
            #![trigger self.assets@[i].id, self.assets@[j].id]
            0 <= i < j < self.assets@.len() ==> self.assets@[i].id != self.assets@[j].id
        &&& forall|i: int, j: int|
            #![trigger self.balances@[i], self.balances@[j]]
            0 <= i < j < self.balances@.len() ==> !(self.balances@[i].asset
                == self.balances@[j].asset && self.balances@[i].account
                == self.balances@[j].account)
        &&& forall|i: int|
            0 <= i < self.balances@.len() ==> (#[trigger] self.balances@[i]).amount == 0
                || self.asset_exists(self.balances@[i].asset)
    }

    /// `transfer` succeeds exactly under this condition: the source holds
    /// enough, and the destination balance stays representable.
    pub open spec fn can_transfer(self, asset: u32, from: u64, to: u64, amount: u128) -> bool {
        &&& self.balance_of(asset, from) >= amount
        &&& (from == to || amount == 0 || self.balance_of(asset, to) + amount <= u128::MAX)
    }

    /// `mint` succeeds exactly under this condition: the asset exists and
    /// both its supply and the destination balance stay representable.
    pub open spec fn can_mint(self, asset: u32, to: u64, amount: u128) -> bool {
        &&& self.asset_exists(asset)
        &&& self.supply_of(asset) + amount <= u128::MAX
        &&& self.balance_of(asset, to) + amount <= u128::MAX
    }

    /// `burn` succeeds exactly under this condition: the account holds
    /// enough and the recorded supply covers the amount.
    pub open spec fn can_burn(self, asset: u32, from: u64, amount: u128) -> bool {
        &&& self.balance_of(asset, from) >= amount
        &&& self.supply_of(asset) >= amount
    }

    /// With unique asset ids, any record for `asset` carries its supply.
    proof fn lemma_supply_at(self, asset: u32, i: int)
        requires
            self.well_formed(),
            self.asset_idx_is(asset, i),
        ensures
            self.asset_exists(asset),
            self.supply_of(asset) == self.assets@[i].supply,
    {
        assert(self.asset_exists(asset));
        let j = choose|j: int| self.asset_idx_is(asset, j);
        if i != j {
            assert(self.assets@[i].id != self.assets@[j].id);
        }
    }

    /// With unique keys, any entry for the pair carries its balance.
    proof fn lemma_balance_at(self, asset: u32, account: u64, i: int)
        requires
            self.well_formed(),
            self.balance_idx_is(asset, account, i),
        ensures
            self.balance_entry_exists(asset, account),
            self.balance_of(asset, account) == self.balances@[i].amount,
    {
        assert(self.balance_entry_exists(asset, account));
        let j = choose|j: int| self.balance_idx_is(asset, account, j);
        if i != j {
            assert(!(self.balances@[i].asset == self.balances@[j].asset && self.balances@[i].account
                == self.balances@[j].account));
        }
    }

    /// An account can hold a nonzero balance only of a created asset.
    pub proof fn lemma_positive_balance_means_asset_exists(self, asset: u32, account: u64)
        requires
            self.well_formed(),
            self.balance_of(asset, account) > 0,
        ensures
            self.asset_exists(asset),
    {
        let i = choose|i: int| self.balance_idx_is(asset, account, i);
        assert(self.balances@[i].amount > 0);
    }

    /// Two ledgers with the same asset registry agree on asset existence
    /// and supplies.
    proof fn lemma_assets_agree(self, other: Ledger)
        requires
            forall|i: int, j: int|
                #![trigger self.assets@[i].id, self.assets@[j].id]
                0 <= i < j < self.assets@.len() ==> self.assets@[i].id != self.assets@[j].id,
            other.assets@ == self.assets@,
        ensures
            forall|a: u32| (#[trigger] other.asset_exists(a)) == self.asset_exists(a),
            forall|a: u32| (#[trigger] other.supply_of(a)) == self.supply_of(a),
    {
        assert forall|a: u32| (#[trigger] other.asset_exists(a)) == self.asset_exists(a) by {
            if self.asset_exists(a) {
                let i = choose|i: int| self.asset_idx_is(a, i);
                assert(other.asset_idx_is(a, i));
            }
            if other.asset_exists(a) {
                let i = choose|i: int| other.asset_idx_is(a, i);
                assert(self.asset_idx_is(a, i));
            }
        }
        assert forall|a: u32| (#[trigger] other.supply_of(a)) == self.supply_of(a) by {
            if self.asset_exists(a) {
                let i = choose|i: int| self.asset_idx_is(a, i);
                assert(other.asset_idx_is(a, i));
                assert(other.asset_exists(a));
                let j = choose|j: int| other.asset_idx_is(a, j);
                assert(other.asset_idx_is(a, j));
                assert(self.asset_idx_is(a, j));
                if i != j {
                    assert(self.assets@[i].id != self.assets@[j].id);
                }
            }
        }
    }

    /// Two ledgers with the same balance book agree on every balance.
    proof fn lemma_balances_agree(self, other: Ledger)
        requires
            forall|i: int, j: int|
                #![trigger self.balances@[i], self.balances@[j]]
                0 <= i < j < self.balances@.len() ==> !(self.balances@[i].asset
                    == self.balances@[j].asset && self.balances@[i].account
                    == self.balances@[j].account),
            other.balances@ == self.balances@,
        ensures
            forall|a: u32, c: u64| (#[trigger] other.balance_of(a, c)) == self.balance_of(a, c),
    {
        assert forall|a: u32, c: u64|
            (#[trigger] other.balance_of(a, c)) == self.balance_of(a, c) by {
            if self.balance_entry_exists(a, c) {
                let i = choose|i: int| self.balance_idx_is(a, c, i);
                assert(other.balance_idx_is(a, c, i));
                let j = choose|j: int| other.balance_idx_is(a, c, j);
                assert(self.balance_idx_is(a, c, j));
                if i != j {
                    assert(!(self.balances@[i].asset == self.balances@[j].asset
                        && self.balances@[i].account == self.balances@[j].account));
                }
            } else {
                if other.balance_entry_exists(a, c) {
                    let i = choose|i: int| other.balance_idx_is(a, c, i);
                    assert(self.balance_idx_is(a, c, i));
                }
            }
        }
    }

    /// A fresh ledger: no assets, no balances.
    pub fn new() -> (r: Ledger)
        ensures
            r.well_formed(),
            forall|a: u32| !(#[trigger] r.asset_exists(a)),
            forall|a: u32| (#[trigger] r.supply_of(a)) == 0,
            forall|a: u32, c: u64| (#[trigger] r.balance_of(a, c)) == 0,
    {
        Ledger { assets: Vec::new(), balances: Vec::new() }
    }

    fn find_asset(&self, asset: u32) -> (r: Option<usize>)
        ensures
            r matches Some(i) ==> self.asset_idx_is(asset, i as int),
            r is Some <==> self.asset_exists(asset),
    {
        let mut idx: usize = 0;
        while idx < self.assets.len()
            invariant
                idx <= self.assets@.len(),
                forall|j: int| 0 <= j < idx ==> (#[trigger] self.assets@[j].id) != asset,
            decreases self.assets@.len() - idx,
        {
            if self.assets[idx].id == asset {
                proof {
                    assert(self.asset_idx_is(asset, idx as int));
                }
                return Some(idx);
            }
            idx = idx + 1;
        }
        None
    }

    fn find_balance(&self, asset: u32, account: u64) -> (r: Option<usize>)
        ensures
            r matches Some(i) ==> self.balance_idx_is(asset, account, i as int),
            r is Some <==> self.balance_entry_exists(asset, account),
    {
        let mut idx: usize = 0;
        while idx < self.balances.len()
            invariant
                idx <= self.balances@.len(),
                forall|j: int|
                    0 <= j < idx ==> !((#[trigger] self.balances@[j]).asset == asset
                        && self.balances@[j].account == account),
            decreases self.balances@.len() - idx,
        {
            if self.balances[idx].asset == asset && self.balances[idx].account == account {
                proof {
                    assert(self.balance_idx_is(asset, account, idx as int));
                }
                return Some(idx);
            }
            idx = idx + 1;
        }
        None
    }

    /// The balance of `account` in `asset`.
    pub fn balance(&self, asset: u32, account: u64) -> (r: u128)
        requires
            self.well_formed(),
        ensures
            r == self.balance_of(asset, account),
    {
        match self.find_balance(asset, account) {
            Some(i) => {
                proof {
                    self.lemma_balance_at(asset, account, i as int);
                }
                self.balances[i].amount
            },
            None => 0,
        }
    }

    /// The total issuance of `asset`.
    pub fn total_supply(&self, asset: u32) -> (r: u128)
        requires
            self.well_formed(),
        ensures
            r == self.supply_of(asset),
    {
        match self.find_asset(asset) {
            Some(i) => {
                proof {
                    self.lemma_supply_at(asset, i as int);
                }
                self.assets[i].supply
            },
            None => 0,
        }
    }

    /// Whether `asset` has been created.
    pub fn has_asset(&self, asset: u32) -> (r: bool)
        ensures
            r == self.asset_exists(asset),
    {
        self.find_asset(asset).is_some()
    }

    /// Sets the balance entry for (`asset`, `account`) to `amount`,
    /// leaving every other balance, and the asset registry, unchanged.
    fn set_balance_value(&mut self, asset: u32, account: u64, amount: u128)
        requires
            old(self).well_formed(),
            old(self).asset_exists(asset) || amount == 0,
        ensures
            final(self).well_formed(),
            final(self).balance_of(asset, account) == amount,
            forall|a: u32, c: u64|
                !(a == asset && c == account) ==> (#[trigger] final(self).balance_of(a, c)) == old(
                    self,
                ).balance_of(a, c),
            forall|a: u32| (#[trigger] final(self).asset_exists(a)) == old(self).asset_exists(a),
            forall|a: u32| (#[trigger] final(self).supply_of(a)) == old(self).supply_of(a),
    {
        let ghost l1 = *self;
        match self.find_balance(asset, account) {
            Some(i) => {
                self.balances[i].amount = amount;
                proof {
                    let ghost l2 = *self;
                    assert(l2.balances@ == l1.balances@.update(
                        i as int,
                        BalanceRecord { asset, account, amount },
                    ));
                    // Keys are unchanged pointwise, so uniqueness carries over.
                    assert forall|p: int| 0 <= p < l2.balances@.len() implies #[trigger] l2.balances@[p].asset
                        == l1.balances@[p].asset && l2.balances@[p].account
                        == l1.balances@[p].account by {}
                    l1.lemma_assets_agree(l2);
                    assert(l2.well_formed());
                    l2.lemma_balance_at(asset, account, i as int);
                    assert forall|a: u32, c: u64| !(a == asset && c == account) implies (
                    #[trigger] l2.balance_of(a, c)) == l1.balance_of(a, c) by {
                        if l1.balance_entry_exists(a, c) {
                            let p = choose|p: int| l1.balance_idx_is(a, c, p);
                            assert(p != i);
                            assert(l2.balance_idx_is(a, c, p));
                            l1.lemma_balance_at(a, c, p);
                            l2.lemma_balance_at(a, c, p);
                        } else {
                            if l2.balance_entry_exists(a, c) {
                                let p = choose|p: int| l2.balance_idx_is(a, c, p);
                                assert(p != i);
                                assert(l1.balance_idx_is(a, c, p));
                            }
                        }
                    }
                }
            },
            None => {
                self.balances.push(BalanceRecord { asset, account, amount });
                proof {
                    let ghost l2 = *self;
                    let n = l1.balances@.len() as int;
                    assert(l2.balances@ == l1.balances@.push(
                        BalanceRecord { asset, account, amount },
                    ));
                    l1.lemma_assets_agree(l2);
                    assert forall|p: int, q: int|
                        #![trigger l2.balances@[p], l2.balances@[q]]
                        0 <= p < q < l2.balances@.len() implies !(l2.balances@[p].asset
                        == l2.balances@[q].asset && l2.balances@[p].account
                        == l2.balances@[q].account) by {
                        if q == n {
                            assert(!l1.balance_idx_is(asset, account, p));
                        }
                    }
                    assert forall|p: int|
                        0 <= p < l2.balances@.len() implies (#[trigger] l2.balances@[p]).amount
                        == 0 || l2.asset_exists(l2.balances@[p].asset) by {
                        if p < n {
                            assert(l2.balances@[p] == l1.balances@[p]);
                        } else {
                            assert(l1.asset_exists(asset) || amount == 0);
                        }
                    }
                    assert(l2.well_formed());
                    l2.lemma_balance_at(asset, account, n);
                    assert forall|a: u32, c: u64| !(a == asset && c == account) implies (
                    #[trigger] l2.balance_of(a, c)) == l1.balance_of(a, c) by {
                        if l1.balance_entry_exists(a, c) {
                            let p = choose|p: int| l1.balance_idx_is(a, c, p);
                            assert(l2.balance_idx_is(a, c, p));
                            l1.lemma_balance_at(a, c, p);
                            l2.lemma_balance_at(a, c, p);
                        } else {
                            if l2.balance_entry_exists(a, c) {
                                let p = choose|p: int| l2.balance_idx_is(a, c, p);
                                assert(p != n);
                                assert(l1.balance_idx_is(a, c, p));
                            }
                        }
                    }
                }
            },
        }
    }

    /// Sets the supply recorded for a created `asset` to `supply`,
    /// leaving asset existence, other supplies, and all balances
    /// unchanged.
    fn set_supply_value(&mut self, asset: u32, supply: u128)
        requires
            old(self).well_formed(),
            old(self).asset_exists(asset),
        ensures
            final(self).well_formed(),
            final(self).supply_of(asset) == supply,
            forall|a: u32|
                a != asset ==> (#[trigger] final(self).supply_of(a)) == old(self).supply_of(a),
            forall|a: u32| (#[trigger] final(self).asset_exists(a)) == old(self).asset_exists(a),
            forall|a: u32, c: u64|
                (#[trigger] final(self).balance_of(a, c)) == old(self).balance_of(a, c),
    {
        let ghost l1 = *self;
        let i: usize = match self.find_asset(asset) {
            Some(i) => i,
            None => {
                proof {
                    assert(false);
                }
                0
            },
        };
        self.assets[i].supply = supply;
        proof {
            let ghost l2 = *self;
            assert forall|p: int| 0 <= p < l2.assets@.len() implies #[trigger] l2.assets@[p].id
                == l1.assets@[p].id by {}
            l1.lemma_balances_agree(l2);
            assert forall|a: u32| (#[trigger] l2.asset_exists(a)) == l1.asset_exists(a) by {
                if l1.asset_exists(a) {
                    let p = choose|p: int| l1.asset_idx_is(a, p);
                    assert(l2.asset_idx_is(a, p));
                }
                if l2.asset_exists(a) {
                    let p = choose|p: int| l2.asset_idx_is(a, p);
                    assert(l1.asset_idx_is(a, p));
                }
            }
            assert(l2.well_formed());
            l2.lemma_supply_at(asset, i as int);
            assert forall|a: u32| a != asset implies (#[trigger] l2.supply_of(a)) == l1.supply_of(
                a,
            ) by {
                if l1.asset_exists(a) {
                    let p = choose|p: int| l1.asset_idx_is(a, p);
                    assert(p != i);
                    assert(l2.asset_idx_is(a, p));
                    l1.lemma_supply_at(a, p);
                    l2.lemma_supply_at(a, p);
                }
            }
        }
    }

    /// Creates a new asset with zero issuance. Fails, changing nothing,
    /// exactly when an asset with this id already exists.
    pub fn create_asset(&mut self, asset: u32, owner: u64, min_balance: u128) -> (r: Result<
        (),
        LedgerError,
    >)
        requires
            old(self).well_formed(),
        ensures
            final(self).well_formed(),
            r is Ok <==> !old(self).asset_exists(asset),
            r is Err ==> r == Err::<(), LedgerError>(LedgerError::AssetAlreadyExists) && *final(self)
                == *old(self),
            r is Ok ==> final(self).asset_exists(asset) && final(self).supply_of(asset) == 0,
            forall|a: u32|
                a != asset ==> (#[trigger] final(self).asset_exists(a)) == old(self).asset_exists(
                    a,
                ),
            forall|a: u32|
                a != asset ==> (#[trigger] final(self).supply_of(a)) == old(self).supply_of(a),
            forall|a: u32, c: u64|
                (#[trigger] final(self).balance_of(a, c)) == old(self).balance_of(a, c),
    {
        let ghost l1 = *self;
        if self.find_asset(asset).is_some() {
            return Err(LedgerError::AssetAlreadyExists);
        }
        self.assets.push(AssetRecord { id: asset, owner, min_balance, supply: 0 });
        proof {
            let ghost l2 = *self;
            let n = l1.assets@.len() as int;
            l1.lemma_balances_agree(l2);
            assert forall|i: int|
                0 <= i < l2.balances@.len() implies (#[trigger] l2.balances@[i]).amount == 0
                || l2.asset_exists(l2.balances@[i].asset) by {
                if l1.balances@[i].amount != 0 {
                    let p = choose|p: int| l1.asset_idx_is(l1.balances@[i].asset, p);
                    assert(l2.asset_idx_is(l2.balances@[i].asset, p));
                }
            }
            assert forall|p: int, q: int|
                #![trigger l2.assets@[p].id, l2.assets@[q].id]
                0 <= p < q < l2.assets@.len() implies l2.assets@[p].id != l2.assets@[q].id by {
                if q == n {
                    assert(!l1.asset_idx_is(asset, p));
                }
            }
            assert(l2.well_formed());
            l2.lemma_supply_at(asset, n);
            assert forall|a: u32| a != asset implies (#[trigger] l2.asset_exists(a))
                == l1.asset_exists(a) by {
                if l1.asset_exists(a) {
                    let p = choose|p: int| l1.asset_idx_is(a, p);
                    assert(l2.asset_idx_is(a, p));
                }
                if l2.asset_exists(a) {
                    let p = choose|p: int| l2.asset_idx_is(a, p);
                    assert(p != n);
                    assert(l1.asset_idx_is(a, p));
                }
            }
            assert forall|a: u32| a != asset implies (#[trigger] l2.supply_of(a)) == l1.supply_of(
                a,
            ) by {
                if l1.asset_exists(a) {
                    let p = choose|p: int| l1.asset_idx_is(a, p);
                    assert(p != n);
                    assert(l2.asset_idx_is(a, p));
                    l1.lemma_supply_at(a, p);
                    l2.lemma_supply_at(a, p);
                }
            }
        }
        Ok(())
    }

    /// Moves `amount` of `asset` from one account to another. Fails,
    /// changing nothing, exactly when the source balance is short
    /// (`InsufficientBalance`) or the destination balance would leave the
    /// representable range (`Overflow`).
    pub fn transfer(&mut self, asset: u32, from: u64, to: u64, amount: u128) -> (r: Result<
        (),
        LedgerError,
    >)
        requires
            old(self).well_formed(),
        ensures
            final(self).well_formed(),
            r is Ok <==> old(self).can_transfer(asset, from, to, amount),
            old(self).balance_of(asset, from) < amount ==> r == Err::<(), LedgerError>(
                LedgerError::InsufficientBalance,
            ),
            r is Err && old(self).balance_of(asset, from) >= amount ==> r == Err::<(), LedgerError>(
                LedgerError::Overflow,
            ),
            r is Err ==> *final(self) == *old(self),
            r is Ok && (from == to || amount == 0) ==> *final(self) == *old(self),
            r is Ok && from != to && amount != 0 ==> final(self).balance_of(asset, from) == old(
                self,
            ).balance_of(asset, from) - amount && final(self).balance_of(asset, to) == old(
                self,
            ).balance_of(asset, to) + amount,
            forall|a: u32, c: u64|
                !(a == asset && (c == from || c == to)) ==> (#[trigger] final(self).balance_of(
                    a,
                    c,
                )) == old(self).balance_of(a, c),
            forall|a: u32| (#[trigger] final(self).asset_exists(a)) == old(self).asset_exists(a),
            forall|a: u32| (#[trigger] final(self).supply_of(a)) == old(self).supply_of(a),
    {
        let from_balance: u128 = self.balance(asset, from);
        if from_balance < amount {
            return Err(LedgerError::InsufficientBalance);
        }
        if from == to || amount == 0 {
            return Ok(());
        }
        let to_balance: u128 = self.balance(asset, to);
        let new_to_balance: u128 = match to_balance.checked_add(amount) {
            Some(v) => v,
            None => { return Err(LedgerError::Overflow) },
        };
        proof {
            self.lemma_positive_balance_means_asset_exists(asset, from);
        }
        self.set_balance_value(asset, from, from_balance - amount);
        self.set_balance_value(asset, to, new_to_balance);
        Ok(())
    }

    /// Issues `amount` of a created `asset` to an account. Fails, changing
    /// nothing, exactly when the asset does not exist (`UnknownAsset`) or
    /// the supply or destination balance would leave the representable
    /// range (`Overflow`).
    pub fn mint(&mut self, asset: u32, to: u64, amount: u128) -> (r: Result<(), LedgerError>)
        requires
            old(self).well_formed(),
        ensures
            final(self).well_formed(),
            r is Ok <==> old(self).can_mint(asset, to, amount),
            !old(self).asset_exists(asset) ==> r == Err::<(), LedgerError>(
                LedgerError::UnknownAsset,
            ),
            r is Err && old(self).asset_exists(asset) ==> r == Err::<(), LedgerError>(
                LedgerError::Overflow,
            ),
            r is Err ==> *final(self) == *old(self),
            r is Ok ==> final(self).supply_of(asset) == old(self).supply_of(asset) + amount,
            r is Ok ==> final(self).balance_of(asset, to) == old(self).balance_of(asset, to)
                + amount,
            forall|a: u32, c: u64|
                !(a == asset && c == to) ==> (#[trigger] final(self).balance_of(a, c)) == old(
                    self,
                ).balance_of(a, c),
            forall|a: u32|
                a != asset ==> (#[trigger] final(self).supply_of(a)) == old(self).supply_of(a),
            forall|a: u32| (#[trigger] final(self).asset_exists(a)) == old(self).asset_exists(a),
    {
        let i: usize = match self.find_asset(asset) {
            Some(i) => i,
            None => { return Err(LedgerError::UnknownAsset) },
        };
        proof {
            self.lemma_supply_at(asset, i as int);
        }
        let new_supply: u128 = match self.assets[i].supply.checked_add(amount) {
            Some(v) => v,
            None => { return Err(LedgerError::Overflow) },
        };
        let to_balance: u128 = self.balance(asset, to);
        let new_to_balance: u128 = match to_balance.checked_add(amount) {
            Some(v) => v,
            None => { return Err(LedgerError::Overflow) },
        };
        self.set_supply_value(asset, new_supply);
        self.set_balance_value(asset, to, new_to_balance);
        Ok(())
    }

    /// Destroys `amount` of `asset` held by an account. Fails, changing
    /// nothing, exactly when the account's balance is short
    /// (`InsufficientBalance`) or the recorded supply is smaller than the
    /// amount (`Overflow`).
    pub fn burn(&mut self, asset: u32, from: u64, amount: u128) -> (r: Result<(), LedgerError>)
        requires
            old(self).well_formed(),
        ensures
            final(self).well_formed(),
            r is Ok <==> old(self).can_burn(asset, from, amount),
            old(self).balance_of(asset, from) < amount ==> r == Err::<(), LedgerError>(
                LedgerError::InsufficientBalance,
            ),
            r is Err && old(self).balance_of(asset, from) >= amount ==> r == Err::<(
            ), LedgerError>(LedgerError::Overflow),
            r is Err ==> *final(self) == *old(self),
            r is Ok && amount == 0 ==> *final(self) == *old(self),
            r is Ok ==> final(self).supply_of(asset) == old(self).supply_of(asset) - amount,
            r is Ok ==> final(self).balance_of(asset, from) == old(self).balance_of(asset, from)
                - amount,
            forall|a: u32, c: u64|
                !(a == asset && c == from) ==> (#[trigger] final(self).balance_of(a, c)) == old(
                    self,
                ).balance_of(a, c),
            forall|a: u32|
                a != asset ==> (#[trigger] final(self).supply_of(a)) == old(self).supply_of(a),
            forall|a: u32| (#[trigger] final(self).asset_exists(a)) == old(self).asset_exists(a),
    {
        let from_balance: u128 = self.balance(asset, from);
        if from_balance < amount {
            return Err(LedgerError::InsufficientBalance);
        }
        if amount == 0 {
            return Ok(());
        }
        proof {
            self.lemma_positive_balance_means_asset_exists(asset, from);
        }
        let i: usize = match self.find_asset(asset) {
            Some(i) => i,
            None => {
                proof {
                    assert(false);
                }
                return Err(LedgerError::UnknownAsset);
            },
        };
        proof {
            self.lemma_supply_at(asset, i as int);
        }
        let supply: u128 = self.assets[i].supply;
        if supply < amount {
            return Err(LedgerError::Overflow);
        }
        self.set_supply_value(asset, supply - amount);
        self.set_balance_value(asset, from, from_balance - amount);
        Ok(())
    }
}

} // verus!
