use vstd::prelude::*;

use crate::callbacks::PriceType;
use crate::store::{
    lemma_lookup_found, lemma_lookup_none, lemma_lookup_push, lemma_lookup_update, lookup_by,
};

verus! {

/// One price a consumer has cached: the value it was handed for a pair,
/// together with who forwarded it and in what shape.
pub struct PriceEntry {
    /// The pair symbol the price belongs to; the cache's key.
    pub pair: String,
    /// The forwarded price.
    pub price: u128,
    /// The account on whose behalf the price was forwarded.
    pub sender: String,
    /// Whether the price arrived alone or in a batch.
    pub price_type: PriceType,
}

/// A consumer's snapshot of a resolved registry: the pair list and the
/// per-pair results exactly as forwarded.
pub struct Registry {
    /// The account owning the registry; the snapshot's key.
    pub owner: String,
    /// The registry's pairs, in forwarded order.
    pub pairs: Vec<String>,
    /// One result per pair, in forwarded order.
    pub results: Vec<Option<u128>>,
    /// The account on whose behalf the registry was resolved.
    pub sender_id: String,
}

/// A contract that consumes prices forwarded by the oracle: it caches
/// the latest value it was handed for each pair, and the latest registry
/// snapshot per registry owner.
pub struct Consumer {
    /// The oracle account this consumer takes prices from.
    pub oracle: String,
    /// The cached prices, keyed by pair symbol (unique).
    pub pairs: Vec<PriceEntry>,
    /// The cached registry snapshots, keyed by owner (unique).
    pub registries: Vec<Registry>,
}

/// The result a forwarded batch carries for position `i`: a single
/// forward repeats its one result for every named pair, a batched
/// forward has one result per position.
pub open spec fn chosen_result(
    price_type: PriceType,
    results: Seq<Option<u128>>,
    i: int,
) -> Option<u128> {
    if price_type == PriceType::Single {
        results[0]
    } else {
        results[i]
    }
}

impl Consumer {
    /// The key under which the price cache files an entry.
    pub open spec fn entry_key() -> spec_fn(PriceEntry) -> Seq<char> {
        |e: PriceEntry| e.pair@
    }

    /// The key under which the registry cache files a snapshot.
    pub open spec fn registry_key() -> spec_fn(Registry) -> Seq<char> {
        |e: Registry| e.owner@
    }

    /// The cached price entry for a pair, if any.
    pub open spec fn spec_entry(self, sym: Seq<char>) -> Option<PriceEntry> {
        lookup_by(self.pairs@, Self::entry_key(), sym)
    }

    /// The cached registry snapshot for an owner, if any.
    pub open spec fn spec_cached_registry(self, owner: Seq<char>) -> Option<Registry> {
        lookup_by(self.registries@, Self::registry_key(), owner)
    }

    /// The cache's invariant: unique keys in both stores.
    pub open spec fn wf(self) -> bool {
        &&& forall|i: int, j: int|
            0 <= i < j < self.pairs@.len() ==> self.pairs@[i].pair@ != self.pairs@[j].pair@
        &&& forall|i: int, j: int|
            0 <= i < j < self.registries@.len() ==> self.registries@[i].owner@
                != self.registries@[j].owner@
    }

    /// A fresh consumer watching the given oracle, with empty caches.
    pub fn new(oracle: String) -> (r: Self)
        ensures
            r.oracle == oracle,
            r.pairs@ == Seq::<PriceEntry>::empty(),
            r.registries@ == Seq::<Registry>::empty(),
            r.wf(),
    {
        Consumer { oracle, pairs: Vec::new(), registries: Vec::new() }
    }

    /// The index of the cached entry for this pair, scanning from the
    /// front, together with everything the lookup model says about it.
    fn find_entry_index(&self, pair: &String) -> (r: Option<usize>)
        ensures
            match r {
                Some(i) => {
                    &&& 0 <= i < self.pairs@.len()
                    &&& self.pairs@[i as int].pair@ == pair@
                    &&& forall|j: int| 0 <= j < i ==> self.pairs@[j].pair@ != pair@
                    &&& self.spec_entry(pair@) == Some(self.pairs@[i as int])
                },
                None => self.spec_entry(pair@) == None::<PriceEntry>,
            },
    {
        let n = self.pairs.len();
        for i in 0..n
            invariant
                n == self.pairs@.len(),
                forall|j: int| 0 <= j < i ==> self.pairs@[j].pair@ != pair@,
        {
            if self.pairs[i].pair == *pair {
                proof {
                    lemma_lookup_found(self.pairs@, Self::entry_key(), i as int);
                }
                return Some(i);
            }
        }
        proof {
            lemma_lookup_none(self.pairs@, Self::entry_key(), pair@);
        }
        None
    }

    /// Caches a price entry under its pair, replacing an earlier entry
    /// or appending a new one; nothing else moves.
    fn put_entry(&mut self, entry: PriceEntry)
        requires
            old(self).wf(),
        ensures
            final(self).wf(),
            final(self).spec_entry(entry.pair@) == Some(entry),
            forall|k: Seq<char>|
                k != entry.pair@ ==> final(self).spec_entry(k) == old(self).spec_entry(k),
            final(self).oracle == old(self).oracle,
            final(self).registries == old(self).registries,
    {
        let ghost pre = self.pairs@;
        let ghost key = Self::entry_key();
        match self.find_entry_index(&entry.pair) {
            Some(i) => {
                let e = &mut self.pairs[i];
                *e = entry;
                proof {
                    let t = self.pairs@[i as int];
                    assert(self.pairs@ == pre.update(i as int, t));
                    lemma_lookup_update(pre, key, i as int, t);
                }
            },
            None => {
                self.pairs.push(entry);
                proof {
                    lemma_lookup_push(pre, key, entry.pair@, entry);
                    assert forall|k: Seq<char>| k != entry.pair@ implies final(self).spec_entry(k)
                        == old(self).spec_entry(k) by {
                        lemma_lookup_push(pre, key, k, entry);
                    }
                    assert forall|i: int, j: int|
                        0 <= i < j < self.pairs@.len() implies self.pairs@[i].pair@
                        != self.pairs@[j].pair@ by {
                        if j == pre.len() as int {
                            if key(pre[i]) == key(entry) {
                                lemma_lookup_found(pre, key, i);
                            }
                        }
                    }
                }
            },
        }
    }

    /// Receives prices forwarded by the oracle: one result per named
    /// pair, in input order (a single forward repeats its one result).
    /// Every position that carries a value overwrites the cache under
    /// its pair; positions whose value was absent leave the cache alone.
    /// The last write per pair wins, as the positions arrive in order.
    pub fn on_price_received(
        &mut self,
        sender_id: String,
        pairs: Vec<String>,
        price_type: PriceType,
        results: Vec<Option<u128>>,
    )
        requires
            old(self).wf(),
            results@.len() == pairs@.len(),
        ensures
            final(self).wf(),
            final(self).oracle == old(self).oracle,
            final(self).registries == old(self).registries,
            forall|k: Seq<char>|
                (forall|i: int|
                    0 <= i < pairs@.len() ==> !(pairs@[i]@ == k && chosen_result(
                        price_type,
                        results@,
                        i,
                    ) is Some)) ==> final(self).spec_entry(k) == old(self).spec_entry(k),
            forall|i: int|
                0 <= i < pairs@.len() && (#[trigger] chosen_result(price_type, results@, i))
                    is Some && (forall|j: int|
                    i < j < pairs@.len() ==> !(pairs@[j]@ == pairs@[i]@ && chosen_result(
                        price_type,
                        results@,
                        j,
                    ) is Some)) ==> {
                    let t = final(self).spec_entry(pairs@[i]@);
                    &&& t is Some
                    &&& t.unwrap().pair@ == pairs@[i]@
                    &&& t.unwrap().price == chosen_result(price_type, results@, i).unwrap()
                    &&& t.unwrap().sender@ == sender_id@
                    &&& t.unwrap().price_type == price_type
                },
    {
        let n = pairs.len();
        for index in 0..n
            invariant
                self.wf(),
                n == pairs@.len(),
                n == results@.len(),
                self.oracle == old(self).oracle,
                self.registries == old(self).registries,
                forall|k: Seq<char>|
                    (forall|i: int|
                        0 <= i < index ==> !(pairs@[i]@ == k && chosen_result(
                            price_type,
                            results@,
                            i,
                        ) is Some)) ==> self.spec_entry(k) == old(self).spec_entry(k),
                forall|i: int|
                    0 <= i < index && (#[trigger] chosen_result(price_type, results@, i))
                        is Some && (forall|j: int|
                        i < j < index ==> !(pairs@[j]@ == pairs@[i]@ && chosen_result(
                            price_type,
                            results@,
                            j,
                        ) is Some)) ==> {
                        let t = self.spec_entry(pairs@[i]@);
                        &&& t is Some
                        &&& t.unwrap().pair@ == pairs@[i]@
                        &&& t.unwrap().price == chosen_result(price_type, results@, i).unwrap()
                        &&& t.unwrap().sender@ == sender_id@
                        &&& t.unwrap().price_type == price_type
                    },
        {
            let value = if matches!(price_type, PriceType::Single) {
                results[0]
            } else {
                results[index]
            };
            assert(value == chosen_result(price_type, results@, index as int));
            match value {
                Some(price) => {
                    let entry = PriceEntry {
                        pair: pairs[index].clone(),
                        price,
                        sender: sender_id.clone(),
                        price_type,
                    };
                    self.put_entry(entry);
                },
                None => {},
            }
        }
    }

    /// Receives a resolved registry forwarded by the oracle and caches
    /// it wholesale under its owner.
    pub fn on_registry_prices_received(
        &mut self,
        sender_id: String,
        pairs: Vec<String>,
        results: Vec<Option<u128>>,
        registry_owner: String,
    )
        requires
            old(self).wf(),
        ensures
            final(self).wf(),
            final(self).oracle == old(self).oracle,
            final(self).pairs == old(self).pairs,
            final(self).spec_cached_registry(registry_owner@) is Some,
            final(self).spec_cached_registry(registry_owner@).unwrap().owner@ == registry_owner@,
            final(self).spec_cached_registry(registry_owner@).unwrap().pairs == pairs,
            final(self).spec_cached_registry(registry_owner@).unwrap().results == results,
            final(self).spec_cached_registry(registry_owner@).unwrap().sender_id == sender_id,
            forall|k: Seq<char>|
                k != registry_owner@ ==> final(self).spec_cached_registry(k) == old(
                    self,
                ).spec_cached_registry(k),
    {
        let ghost pre = self.registries@;
        let ghost key = Self::registry_key();
        let entry = Registry { owner: registry_owner, pairs, results, sender_id };
        let mut found: Option<usize> = None;
        let n = self.registries.len();
        for i in 0..n
            invariant
                n == self.registries@.len(),
                self.registries@ == pre,
                match found {
                    Some(k) => {
                        &&& 0 <= k < n
                        &&& pre[k as int].owner@ == entry.owner@
                        &&& forall|j: int| 0 <= j < k ==> pre[j].owner@ != entry.owner@
                    },
                    None => forall|j: int| 0 <= j < i ==> pre[j].owner@ != entry.owner@,
                },
        {
            if found.is_none() {
                if self.registries[i].owner == entry.owner {
                    found = Some(i);
                }
            }
        }
        match found {
            Some(i) => {
                let e = &mut self.registries[i];
                *e = entry;
                proof {
                    let t = self.registries@[i as int];
                    assert(self.registries@ == pre.update(i as int, t));
                    lemma_lookup_update(pre, key, i as int, t);
                }
            },
            None => {
                self.registries.push(entry);
                proof {
                    lemma_lookup_push(pre, key, entry.owner@, entry);
                    lemma_lookup_none(pre, key, entry.owner@);
                    assert forall|k: Seq<char>| k != entry.owner@ implies final(self)
                        .spec_cached_registry(k) == old(self).spec_cached_registry(k) by {
                        lemma_lookup_push(pre, key, k, entry);
                    }
                    assert forall|i: int, j: int|
                        0 <= i < j < self.registries@.len() implies self.registries@[i].owner@
                        != self.registries@[j].owner@ by {}
                }
            },
        }
    }

    /// The cached price entry for a pair, if the consumer holds one.
    pub fn get_pair(&self, pair: String) -> (r: Option<&PriceEntry>)
        ensures
            match r {
                Some(e) => self.spec_entry(pair@) == Some(*e),
                None => self.spec_entry(pair@) == None::<PriceEntry>,
            },
    {
        match self.find_entry_index(&pair) {
            Some(i) => Some(&self.pairs[i]),
            None => None,
        }
    }

    /// The cached registry snapshot for an owner, if the consumer holds
    /// one.
    pub fn get_registry(&self, registry: String) -> (r: Option<&Registry>)
        ensures
            match r {
                Some(e) => self.spec_cached_registry(registry@) == Some(*e),
                None => self.spec_cached_registry(registry@) == None::<Registry>,
            },
    {
        let n = self.registries.len();
        for i in 0..n
            invariant
                n == self.registries@.len(),
                forall|j: int| 0 <= j < i ==> self.registries@[j].owner@ != registry@,
        {
            if self.registries[i].owner == registry {
                proof {
                    lemma_lookup_found(self.registries@, Self::registry_key(), i as int);
                }
                return Some(&self.registries[i]);
            }
        }
        proof {
            lemma_lookup_none(self.registries@, Self::registry_key(), registry@);
        }
        None
    }
}

} // verus!
