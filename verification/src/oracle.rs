use vstd::prelude::*;

use crate::errors::OracleError;
use crate::price_pair::{
    clone_key_list, find_key_index, lemma_remove_first_occurrence, remove_all_keys, PriceEntry,
    DEFAULT_MIN_SIGNERS,
};
use crate::registry::OwnedRegistry;
use crate::storage_manager::StorageAccount;
use crate::store::{
    lemma_lookup_found, lemma_lookup_none, lemma_lookup_push, lemma_lookup_update, lookup_by,
};

verus! {

/// The oracle's whole state: the administrator account, the pair store,
/// the registries, and the storage-balance ledger. The host executes one
/// call at a time, so every operation is a plain sequential transition.
pub struct FPOContract {
    /// The single account with the right to create pairs and edit signer sets.
    pub admin: String,
    /// The pair store, keyed by pair symbol (unique).
    pub pairs: Vec<PriceEntry>,
    /// The registries, keyed by owning account (unique).
    pub registries: Vec<OwnedRegistry>,
    /// The storage-balance ledger, keyed by account (unique).
    pub accounts: Vec<StorageAccount>,
}

impl FPOContract {
    /// The key under which the pair store files an entry.
    pub open spec fn pair_key() -> spec_fn(PriceEntry) -> Seq<char> {
        |e: PriceEntry| e.pair@
    }

    /// The key under which the registry store files an entry.
    pub open spec fn registry_key() -> spec_fn(OwnedRegistry) -> Seq<char> {
        |e: OwnedRegistry| e.owner@
    }

    /// The key under which the storage ledger files an entry.
    pub open spec fn account_key() -> spec_fn(StorageAccount) -> Seq<char> {
        |e: StorageAccount| e.owner@
    }

    /// The pair stored under a symbol, if any.
    pub open spec fn spec_pair(self, sym: Seq<char>) -> Option<PriceEntry> {
        lookup_by(self.pairs@, Self::pair_key(), sym)
    }

    /// Whether a pair with this symbol is registered.
    pub open spec fn has_pair(self, sym: Seq<char>) -> bool {
        self.spec_pair(sym).is_some()
    }

    /// The current price stored under a symbol, if any.
    pub open spec fn spec_price(self, sym: Seq<char>) -> Option<u128> {
        match self.spec_pair(sym) {
            Some(e) => Some(e.price),
            None => None,
        }
    }

    /// The registry stored under an owner, if any.
    pub open spec fn spec_registry(self, owner: Seq<char>) -> Option<OwnedRegistry> {
        lookup_by(self.registries@, Self::registry_key(), owner)
    }

    /// The storage balance stored under an account, if any.
    pub open spec fn spec_account(self, owner: Seq<char>) -> Option<StorageAccount> {
        lookup_by(self.accounts@, Self::account_key(), owner)
    }

    /// Every pair symbol occurs at most once in the store.
    pub open spec fn pairs_unique(self) -> bool {
        forall|i: int, j: int|
            0 <= i < j < self.pairs@.len() ==> self.pairs@[i].pair@ != self.pairs@[j].pair@
    }

    /// Every registry owner occurs at most once.
    pub open spec fn registries_unique(self) -> bool {
        forall|i: int, j: int|
            0 <= i < j < self.registries@.len() ==> self.registries@[i].owner@
                != self.registries@[j].owner@
    }

    /// Every ledger account occurs at most once.
    pub open spec fn accounts_unique(self) -> bool {
        forall|i: int, j: int|
            0 <= i < j < self.accounts@.len() ==> self.accounts@[i].owner@
                != self.accounts@[j].owner@
    }

    /// The state's invariant: unique keys everywhere, and every round
    /// counter at least 1 (rounds start at 1 on creation).
    pub open spec fn wf(self) -> bool {
        &&& self.pairs_unique()
        &&& self.registries_unique()
        &&& self.accounts_unique()
        &&& forall|i: int| 0 <= i < self.pairs@.len() ==> self.pairs@[i].latest_round_id >= 1
    }

    /// The two states agree on every pair but (possibly) the named one.
    pub open spec fn same_pairs_except(self, other: Self, sym: Seq<char>) -> bool {
        forall|k: Seq<char>| k != sym ==> self.spec_pair(k) == other.spec_pair(k)
    }

    /// Everything but the pair store is unchanged between the two states.
    pub open spec fn same_but_pairs(self, other: Self) -> bool {
        &&& self.admin == other.admin
        &&& self.registries == other.registries
        &&& self.accounts == other.accounts
    }

    /// A fresh oracle: the given administrator, and no pairs, registries,
    /// or storage accounts.
    pub fn new(admin: String) -> (r: Self)
        ensures
            r.admin == admin,
            r.pairs@ == Seq::<PriceEntry>::empty(),
            r.registries@ == Seq::<OwnedRegistry>::empty(),
            r.accounts@ == Seq::<StorageAccount>::empty(),
            r.wf(),
    {
        FPOContract { admin, pairs: Vec::new(), registries: Vec::new(), accounts: Vec::new() }
    }

    /// Rejects a caller who is not the administrator.
    pub fn assert_admin(&self, caller: &String) -> (r: Result<(), OracleError>)
        ensures
            r.is_ok() <==> caller@ == self.admin@,
            r.is_err() ==> r == Err::<(), OracleError>(OracleError::Unauthorized),
    {
        if *caller == self.admin {
            Ok(())
        } else {
            Err(OracleError::Unauthorized)
        }
    }

    /// The index of the pair with this symbol, scanning from the front,
    /// together with everything the lookup model says about it.
    fn find_pair_index(&self, pair: &String) -> (r: Option<usize>)
        ensures
            match r {
                Some(i) => {
                    &&& 0 <= i < self.pairs@.len()
                    &&& self.pairs@[i as int].pair@ == pair@
                    &&& forall|j: int| 0 <= j < i ==> self.pairs@[j].pair@ != pair@
                    &&& self.spec_pair(pair@) == Some(self.pairs@[i as int])
                },
                None => self.spec_pair(pair@) == None::<PriceEntry>,
            },
    {
        let n = self.pairs.len();
        for i in 0..n
            invariant
                n == self.pairs@.len(),
                forall|j: int| 0 <= j < i ==> self.pairs@[j].pair@ != pair@,
        {
            if self.pairs[i].pair == *pair {
                proof {
                    lemma_lookup_found(self.pairs@, Self::pair_key(), i as int);
                }
                return Some(i);
            }
        }
        proof {
            lemma_lookup_none(self.pairs@, Self::pair_key(), pair@);
        }
        None
    }

    /// Creates a new price pair. Only the administrator may create pairs;
    /// a symbol can be registered once and never re-created. On success the
    /// pair starts at round 1 with the given signer set and the default
    /// minimum signer count.
    pub fn create_pair(
        &mut self,
        caller: &String,
        pair: String,
        decimals: u16,
        initial_price: u128,
        signers: Vec<Vec<u8>>,
        now: u64,
    ) -> (r: Result<(), OracleError>)
        requires
            old(self).wf(),
        ensures
            final(self).wf(),
            caller@ != old(self).admin@ ==> r == Err::<(), OracleError>(OracleError::Unauthorized)
                && *final(self) == *old(self),
            caller@ == old(self).admin@ && old(self).has_pair(pair@)
                ==> r == Err::<(), OracleError>(OracleError::AlreadyExists)
                && *final(self) == *old(self),
            caller@ == old(self).admin@ && !old(self).has_pair(pair@) ==> {
                &&& r == Ok::<(), OracleError>(())
                &&& final(self).spec_pair(pair@) == Some(
                    (PriceEntry {
                        pair,
                        price: initial_price,
                        decimals,
                        last_update: now,
                        signers,
                        latest_round_id: 1u64,
                        min_signers: DEFAULT_MIN_SIGNERS,
                    }),
                )
                &&& final(self).same_pairs_except(*old(self), pair@)
                &&& final(self).same_but_pairs(*old(self))
            },
    {
        if let Err(e) = self.assert_admin(caller) {
            return Err(e);
        }
        if self.find_pair_index(&pair).is_some() {
            return Err(OracleError::AlreadyExists);
        }
        let ghost pre = self.pairs@;
        let entry = PriceEntry {
            pair,
            price: initial_price,
            decimals,
            last_update: now,
            signers,
            latest_round_id: 1,
            min_signers: DEFAULT_MIN_SIGNERS,
        };
        self.pairs.push(entry);
        proof {
            let key = Self::pair_key();
            lemma_lookup_push(pre, key, entry.pair@, entry);
            assert forall|k: Seq<char>| k != entry.pair@ implies final(self).spec_pair(k) == old(
                self,
            ).spec_pair(k) by {
                lemma_lookup_push(pre, key, k, entry);
            }
            assert forall|i: int, j: int|
                0 <= i < j < self.pairs@.len() implies self.pairs@[i].pair@
                != self.pairs@[j].pair@ by {
                if j == pre.len() as int {
                    if key(pre[i]) == key(entry) {
                        lemma_lookup_found(pre, key, i);
                    }
                }
            }
        }
        Ok(())
    }

    /// Commits a new value to an existing pair: sets the price and the
    /// freshness timestamp and advances the round counter by one.
    pub fn set_price(&mut self, pair: &String, price: u128, now: u64) -> (r: Result<
        (),
        OracleError,
    >)
        requires
            old(self).wf(),
            old(self).has_pair(pair@) ==> old(self).spec_pair(pair@).unwrap().latest_round_id
                < u64::MAX,
        ensures
            final(self).wf(),
            !old(self).has_pair(pair@) ==> r == Err::<(), OracleError>(OracleError::NotFound)
                && *final(self) == *old(self),
            old(self).has_pair(pair@) ==> {
                let e = old(self).spec_pair(pair@).unwrap();
                &&& r == Ok::<(), OracleError>(())
                &&& final(self).spec_pair(pair@) == Some(
                    (PriceEntry {
                        pair: e.pair,
                        price,
                        decimals: e.decimals,
                        last_update: now,
                        signers: e.signers,
                        latest_round_id: (e.latest_round_id + 1) as u64,
                        min_signers: e.min_signers,
                    }),
                )
                &&& final(self).same_pairs_except(*old(self), pair@)
                &&& final(self).same_but_pairs(*old(self))
            },
    {
        let idx = match self.find_pair_index(pair) {
            None => {
                return Err(OracleError::NotFound);
            },
            Some(i) => i,
        };
        let ghost pre = self.pairs@;
        let e = &mut self.pairs[idx];
        e.price = price;
        e.last_update = now;
        e.latest_round_id = e.latest_round_id + 1;
        proof {
            let key = Self::pair_key();
            let t = self.pairs@[idx as int];
            assert(self.pairs@ == pre.update(idx as int, t));
            lemma_lookup_update(pre, key, idx as int, t);
        }
        Ok(())
    }

    /// Commits a round on behalf of the submission protocol: the presented
    /// round id must equal the pair's current round, which is the replay
    /// protection — a stale or future id is rejected and nothing changes.
    pub fn commit_round(
        &mut self,
        pair: &String,
        new_price: u128,
        committer_round_id: u64,
        now: u64,
    ) -> (r: Result<(), OracleError>)
        requires
            old(self).wf(),
            committer_round_id < u64::MAX,
        ensures
            final(self).wf(),
            !old(self).has_pair(pair@) ==> r == Err::<(), OracleError>(OracleError::NotFound)
                && *final(self) == *old(self),
            old(self).has_pair(pair@) && old(self).spec_pair(pair@).unwrap().latest_round_id
                != committer_round_id ==> r == Err::<(), OracleError>(OracleError::RoundMismatch)
                && *final(self) == *old(self),
            old(self).has_pair(pair@) && old(self).spec_pair(pair@).unwrap().latest_round_id
                == committer_round_id ==> {
                let e = old(self).spec_pair(pair@).unwrap();
                &&& r == Ok::<(), OracleError>(())
                &&& final(self).spec_pair(pair@) == Some(
                    (PriceEntry {
                        pair: e.pair,
                        price: new_price,
                        decimals: e.decimals,
                        last_update: now,
                        signers: e.signers,
                        latest_round_id: (committer_round_id + 1) as u64,
                        min_signers: e.min_signers,
                    }),
                )
                &&& final(self).same_pairs_except(*old(self), pair@)
                &&& final(self).same_but_pairs(*old(self))
            },
    {
        let current = match self.get_entry_option(pair) {
            None => {
                return Err(OracleError::NotFound);
            },
            Some(e) => e.latest_round_id,
        };
        if current != committer_round_id {
            return Err(OracleError::RoundMismatch);
        }
        self.set_price(pair, new_price, now)
    }

    /// All data stored for a pair, if the pair exists.
    pub fn get_entry_option(&self, pair: &String) -> (r: Option<&PriceEntry>)
        ensures
            match r {
                Some(e) => self.spec_pair(pair@) == Some(*e),
                None => self.spec_pair(pair@) == None::<PriceEntry>,
            },
    {
        match self.find_pair_index(pair) {
            Some(i) => Some(&self.pairs[i]),
            None => None,
        }
    }

    /// All data stored for a pair; `NotFound` if the pair does not exist.
    pub fn get_entry_expect(&self, pair: &String) -> (r: Result<&PriceEntry, OracleError>)
        ensures
            match r {
                Ok(e) => self.spec_pair(pair@) == Some(*e),
                Err(err) => err == OracleError::NotFound && self.spec_pair(pair@)
                    == None::<PriceEntry>,
            },
    {
        match self.get_entry_option(pair) {
            Some(e) => Ok(e),
            None => Err(OracleError::NotFound),
        }
    }

    /// All data stored for a pair, if the pair exists.
    pub fn get_entry(&self, pair: String) -> (r: Option<&PriceEntry>)
        ensures
            match r {
                Some(e) => self.spec_pair(pair@) == Some(*e),
                None => self.spec_pair(pair@) == None::<PriceEntry>,
            },
    {
        self.get_entry_option(&pair)
    }

    /// The current price of a pair, if the pair exists.
    pub fn get_price(&self, pair: String) -> (r: Option<u128>)
        ensures
            r == self.spec_price(pair@),
    {
        match self.get_entry_option(&pair) {
            Some(e) => Some(e.price),
            None => None,
        }
    }

    /// The current prices of several pairs, in input order; `None` where a
    /// pair does not exist.
    pub fn get_prices(&self, pairs: &Vec<String>) -> (r: Vec<Option<u128>>)
        ensures
            r@.len() == pairs@.len(),
            forall|i: int| 0 <= i < pairs@.len() ==> r@[i] == self.spec_price(pairs@[i]@),
    {
        let mut result: Vec<Option<u128>> = Vec::new();
        let n = pairs.len();
        for i in 0..n
            invariant
                n == pairs@.len(),
                result@.len() == i,
                forall|j: int| 0 <= j < i ==> result@[j] == self.spec_price(pairs@[j]@),
        {
            result.push(self.get_price_ref(&pairs[i]));
        }
        result
    }

    /// The current price of a pair, by reference to the symbol.
    pub fn get_price_ref(&self, pair: &String) -> (r: Option<u128>)
        ensures
            r == self.spec_price(pair@),
    {
        match self.get_entry_option(pair) {
            Some(e) => Some(e.price),
            None => None,
        }
    }

    /// Whether a pair with this symbol is registered.
    pub fn pair_exists(&self, pair: String) -> (r: bool)
        ensures
            r == self.has_pair(pair@),
    {
        self.get_entry_option(&pair).is_some()
    }

    /// Appends keys to a pair's signer set. Administrator-only. Keys are
    /// appended as given; a key already present is simply present twice and
    /// still counts once per batch.
    pub fn add_signers(&mut self, caller: &String, received_signers: Vec<Vec<u8>>, pair: String)
        -> (r: Result<(), OracleError>)
        requires
            old(self).wf(),
        ensures
            final(self).wf(),
            caller@ != old(self).admin@ ==> r == Err::<(), OracleError>(OracleError::Unauthorized)
                && *final(self) == *old(self),
            caller@ == old(self).admin@ && !old(self).has_pair(pair@)
                ==> r == Err::<(), OracleError>(OracleError::NotFound)
                && *final(self) == *old(self),
            caller@ == old(self).admin@ && old(self).has_pair(pair@) ==> {
                let e = old(self).spec_pair(pair@).unwrap();
                let t = final(self).spec_pair(pair@).unwrap();
                &&& r == Ok::<(), OracleError>(())
                &&& final(self).has_pair(pair@)
                &&& t.pair == e.pair
                &&& t.price == e.price
                &&& t.decimals == e.decimals
                &&& t.last_update == e.last_update
                &&& t.latest_round_id == e.latest_round_id
                &&& t.min_signers == e.min_signers
                &&& t.signers@ == e.signers@ + received_signers@
                &&& final(self).same_pairs_except(*old(self), pair@)
                &&& final(self).same_but_pairs(*old(self))
            },
    {
        if let Err(e) = self.assert_admin(caller) {
            return Err(e);
        }
        let idx = match self.find_pair_index(&pair) {
            None => {
                return Err(OracleError::NotFound);
            },
            Some(i) => i,
        };
        let ghost pre = self.pairs@;
        let mut received = received_signers;
        let e = &mut self.pairs[idx];
        e.signers.append(&mut received);
        proof {
            let key = Self::pair_key();
            let t = self.pairs@[idx as int];
            assert(self.pairs@ == pre.update(idx as int, t));
            lemma_lookup_update(pre, key, idx as int, t);
        }
        Ok(())
    }

    /// Removes keys from a pair's signer set, first occurrence first.
    /// Administrator-only. The whole batch fails with `NotFound` — and
    /// nothing changes — as soon as one key is not present: removal is
    /// all-or-nothing, like every other mutation here.
    pub fn rm_signers(&mut self, caller: &String, received_signers: Vec<Vec<u8>>, pair: String)
        -> (r: Result<(), OracleError>)
        requires
            old(self).wf(),
        ensures
            final(self).wf(),
            caller@ != old(self).admin@ ==> r == Err::<(), OracleError>(OracleError::Unauthorized)
                && *final(self) == *old(self),
            caller@ == old(self).admin@ && !old(self).has_pair(pair@)
                ==> r == Err::<(), OracleError>(OracleError::NotFound)
                && *final(self) == *old(self),
            caller@ == old(self).admin@ && old(self).has_pair(pair@) ==> {
                let e = old(self).spec_pair(pair@).unwrap();
                let removed = remove_all_keys(
                    e.signers_view(),
                    received_signers@.map_values(|k: Vec<u8>| k@),
                );
                if removed is None {
                    r == Err::<(), OracleError>(OracleError::NotFound) && *final(self) == *old(
                        self,
                    )
                } else {
                    let t = final(self).spec_pair(pair@).unwrap();
                    &&& r == Ok::<(), OracleError>(())
                    &&& final(self).has_pair(pair@)
                    &&& t.pair == e.pair
                    &&& t.price == e.price
                    &&& t.decimals == e.decimals
                    &&& t.last_update == e.last_update
                    &&& t.latest_round_id == e.latest_round_id
                    &&& t.min_signers == e.min_signers
                    &&& t.signers_view() == removed.unwrap()
                    &&& final(self).same_pairs_except(*old(self), pair@)
                    &&& final(self).same_but_pairs(*old(self))
                }
            },
    {
        if let Err(e) = self.assert_admin(caller) {
            return Err(e);
        }
        let idx = match self.find_pair_index(&pair) {
            None => {
                return Err(OracleError::NotFound);
            },
            Some(i) => i,
        };
        let ghost orig = self.pairs@[idx as int].signers_view();
        let ghost ks = received_signers@.map_values(|k: Vec<u8>| k@);
        let mut work = clone_key_list(&self.pairs[idx].signers);
        let n = received_signers.len();
        assert(ks.skip(0) =~= ks);
        for i in 0..n
            invariant
                *self == *old(self),
                old(self).wf(),
                caller@ == old(self).admin@,
                0 <= idx < self.pairs@.len(),
                old(self).spec_pair(pair@) == Some(self.pairs@[idx as int]),
                orig == self.pairs@[idx as int].signers_view(),
                n == ks.len(),
                n == received_signers@.len(),
                ks == received_signers@.map_values(|k: Vec<u8>| k@),
                remove_all_keys(orig, ks) == remove_all_keys(
                    work@.map_values(|k: Vec<u8>| k@),
                    ks.skip(i as int),
                ),
        {
            let ghost wv = work@.map_values(|k: Vec<u8>| k@);
            assert(ks.skip(i as int).first() == ks[i as int]);
            assert(ks[i as int] == received_signers@[i as int]@);
            match find_key_index(&work, &received_signers[i]) {
                None => {
                    proof {
                        assert(remove_all_keys(wv, ks.skip(i as int)) is None);
                    }
                    return Err(OracleError::NotFound);
                },
                Some(j) => {
                    proof {
                        assert(wv[j as int] == ks[i as int]);
                        assert(wv.contains(ks[i as int]));
                        lemma_remove_first_occurrence(wv, ks[i as int], j as int);
                        assert(ks.skip(i as int).drop_first() =~= ks.skip(i as int + 1));
                    }
                    let ghost pre_work = work@;
                    work.remove(j);
                    proof {
                        assert(work@.map_values(|k: Vec<u8>| k@) =~= pre_work.map_values(
                            |k: Vec<u8>| k@,
                        ).remove(j as int));
                    }
                },
            }
        }
        assert(ks.skip(n as int) =~= Seq::<Seq<u8>>::empty());
        assert(remove_all_keys(orig, ks) == Some(work@.map_values(|k: Vec<u8>| k@)));
        let ghost pre = self.pairs@;
        let e = &mut self.pairs[idx];
        e.signers = work;
        proof {
            let key = Self::pair_key();
            let t = self.pairs@[idx as int];
            assert(self.pairs@ == pre.update(idx as int, t));
            lemma_lookup_update(pre, key, idx as int, t);
        }
        Ok(())
    }

    /// Sets a pair's minimum signer count. Administrator-only. A floor of
    /// zero marks the pair as carrying no signature requirement.
    pub fn set_min_signers(&mut self, caller: &String, min_signers: u64, pair: String) -> (r:
        Result<(), OracleError>)
        requires
            old(self).wf(),
        ensures
            final(self).wf(),
            caller@ != old(self).admin@ ==> r == Err::<(), OracleError>(OracleError::Unauthorized)
                && *final(self) == *old(self),
            caller@ == old(self).admin@ && !old(self).has_pair(pair@)
                ==> r == Err::<(), OracleError>(OracleError::NotFound)
                && *final(self) == *old(self),
            caller@ == old(self).admin@ && old(self).has_pair(pair@) ==> {
                let e = old(self).spec_pair(pair@).unwrap();
                &&& r == Ok::<(), OracleError>(())
                &&& final(self).spec_pair(pair@) == Some(
                    (PriceEntry {
                        pair: e.pair,
                        price: e.price,
                        decimals: e.decimals,
                        last_update: e.last_update,
                        signers: e.signers,
                        latest_round_id: e.latest_round_id,
                        min_signers,
                    }),
                )
                &&& final(self).same_pairs_except(*old(self), pair@)
                &&& final(self).same_but_pairs(*old(self))
            },
    {
        if let Err(e) = self.assert_admin(caller) {
            return Err(e);
        }
        let idx = match self.find_pair_index(&pair) {
            None => {
                return Err(OracleError::NotFound);
            },
            Some(i) => i,
        };
        let ghost pre = self.pairs@;
        let e = &mut self.pairs[idx];
        e.min_signers = min_signers;
        proof {
            let key = Self::pair_key();
            let t = self.pairs@[idx as int];
            assert(self.pairs@ == pre.update(idx as int, t));
            lemma_lookup_update(pre, key, idx as int, t);
        }
        Ok(())
    }

    /// Hands administrative authority to another account. Only the current
    /// administrator may transfer it; nothing else changes.
    pub fn transfer_admin(&mut self, caller: &String, new_admin: String) -> (r: Result<
        (),
        OracleError,
    >)
        requires
            old(self).wf(),
        ensures
            final(self).wf(),
            caller@ != old(self).admin@ ==> r == Err::<(), OracleError>(OracleError::Unauthorized)
                && *final(self) == *old(self),
            caller@ == old(self).admin@ ==> r == Ok::<(), OracleError>(()) && final(self).admin
                == new_admin && final(self).pairs == old(self).pairs && final(self).registries
                == old(self).registries && final(self).accounts == old(self).accounts,
    {
        if let Err(e) = self.assert_admin(caller) {
            return Err(e);
        }
        self.admin = new_admin;
        Ok(())
    }
}

} // verus!
