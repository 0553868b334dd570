use vstd::prelude::*;

use crate::callbacks::PriceType;
use crate::store::{
    lemma_lookup_found, lemma_lookup_none, lemma_lookup_push, lemma_lookup_update, lookup_by,
};
use crate::wire::{dashed_chars, dashed_name};

verus! {

/// One price a requester has cached: the value the oracle answered for a
/// provider-qualified pair, with who sent it and in what shape.
pub struct PriceEntry {
    /// The composed entry name `{pair}-{provider}`; the cache's key.
    /// The provider is part of the name, so one flat store carries every
    /// provider's answers.
    pub pair: String,
    /// The answered price.
    pub price: u128,
    /// The account the answer came on behalf of.
    pub sender: String,
    /// Whether the answer was a raw price or a reduced value.
    pub price_type: PriceType,
}

/// A contract that requests prices from the oracle and caches the
/// answers it receives, one entry per provider-qualified pair.
pub struct Requester {
    /// The oracle account this requester queries.
    pub oracle: String,
    /// The cached answers, keyed by composed name (unique).
    pub pairs: Vec<PriceEntry>,
}

/// The result an answer carries for position `i`: a reduced value (mean
/// or median) stands for the whole group and is repeated, any other
/// shape has one result per position.
pub open spec fn answered_result(
    price_type: PriceType,
    results: Seq<Option<u128>>,
    i: int,
) -> Option<u128> {
    if price_type == PriceType::Mean || price_type == PriceType::Median {
        results[0]
    } else {
        results[i]
    }
}

impl Requester {
    /// The key under which the cache files an entry.
    pub open spec fn entry_key() -> spec_fn(PriceEntry) -> Seq<char> {
        |e: PriceEntry| e.pair@
    }

    /// The cached entry for a composed name, if any.
    pub open spec fn spec_entry(self, name: Seq<char>) -> Option<PriceEntry> {
        lookup_by(self.pairs@, Self::entry_key(), name)
    }

    /// The cache's invariant: unique composed names.
    pub open spec fn wf(self) -> bool {
        forall|i: int, j: int|
            0 <= i < j < self.pairs@.len() ==> self.pairs@[i].pair@ != self.pairs@[j].pair@
    }

    /// A fresh requester watching the given oracle, with an empty cache.
    pub fn new(oracle: String) -> (r: Self)
        ensures
            r.oracle == oracle,
            r.pairs@ == Seq::<PriceEntry>::empty(),
            r.wf(),
    {
        Requester { oracle, pairs: Vec::new() }
    }

    /// The index of the cached entry for this composed name, scanning
    /// from the front.
    fn find_entry_index(&self, name: &String) -> (r: Option<usize>)
        ensures
            match r {
                Some(i) => {
                    &&& 0 <= i < self.pairs@.len()
                    &&& self.pairs@[i as int].pair@ == name@
                    &&& forall|j: int| 0 <= j < i ==> self.pairs@[j].pair@ != name@
                    &&& self.spec_entry(name@) == Some(self.pairs@[i as int])
                },
                None => self.spec_entry(name@) == None::<PriceEntry>,
            },
    {
        let n = self.pairs.len();
        for i in 0..n
            invariant
                n == self.pairs@.len(),
                forall|j: int| 0 <= j < i ==> self.pairs@[j].pair@ != name@,
        {
            if self.pairs[i].pair == *name {
                proof {
                    lemma_lookup_found(self.pairs@, Self::entry_key(), i as int);
                }
                return Some(i);
            }
        }
        proof {
            lemma_lookup_none(self.pairs@, Self::entry_key(), name@);
        }
        None
    }

    /// Caches an answer under its composed name, replacing an earlier
    /// entry or appending a new one; nothing else moves.
    fn set_pair(&mut self, entry: PriceEntry)
        requires
            old(self).wf(),
        ensures
            final(self).wf(),
            final(self).spec_entry(entry.pair@) == Some(entry),
            forall|k: Seq<char>|
                k != entry.pair@ ==> final(self).spec_entry(k) == old(self).spec_entry(k),
            final(self).oracle == old(self).oracle,
    {
        let ghost pre = self.pairs@;
        let ghost key = Self::entry_key();
        match self.find_entry_index(&entry.pair) {
            Some(i) => {
                let e = &mut self.pairs[i];
                *e = entry;
                proof {
                    let t = self.pairs@[i as int];
                    assert(self.pairs@ == pre.update(i as int, t));
                    lemma_lookup_update(pre, key, i as int, t);
                }
            },
            None => {
                self.pairs.push(entry);
                proof {
                    lemma_lookup_push(pre, key, entry.pair@, entry);
                    assert forall|k: Seq<char>| k != entry.pair@ implies final(self).spec_entry(k)
                        == old(self).spec_entry(k) by {
                        lemma_lookup_push(pre, key, k, entry);
                    }
                    assert forall|i: int, j: int|
                        0 <= i < j < self.pairs@.len() implies self.pairs@[i].pair@
                        != self.pairs@[j].pair@ by {
                        if j == pre.len() as int {
                            if key(pre[i]) == key(entry) {
                                lemma_lookup_found(pre, key, i);
                            }
                        }
                    }
                }
            },
        }
    }

    /// Receives answered prices: one per (pair, provider) position, in
    /// order — a reduced value (mean or median) stands for the whole
    /// group and is repeated. Every position that carries a value
    /// overwrites the cache under its composed name; positions whose
    /// value was absent leave the cache alone. The last write per name
    /// wins, as the positions arrive in order.
    pub fn on_price_received(
        &mut self,
        sender_id: String,
        pairs: Vec<String>,
        providers: Vec<String>,
        price_type: PriceType,
        results: Vec<Option<u128>>,
    )
        requires
            old(self).wf(),
            pairs@.len() == providers@.len(),
            results@.len() == providers@.len(),
        ensures
            final(self).wf(),
            final(self).oracle == old(self).oracle,
            forall|k: Seq<char>|
                (forall|i: int|
                    0 <= i < providers@.len() ==> !(dashed_chars(pairs@[i]@, providers@[i]@) == k
                        && answered_result(price_type, results@, i) is Some))
                    ==> final(self).spec_entry(k) == old(self).spec_entry(k),
            forall|i: int|
                0 <= i < providers@.len() && (#[trigger] answered_result(
                    price_type,
                    results@,
                    i,
                )) is Some && (forall|j: int|
                    i < j < providers@.len() ==> !(dashed_chars(pairs@[j]@, providers@[j]@)
                        == dashed_chars(pairs@[i]@, providers@[i]@) && answered_result(
                        price_type,
                        results@,
                        j,
                    ) is Some)) ==> {
                    let t = final(self).spec_entry(dashed_chars(pairs@[i]@, providers@[i]@));
                    &&& t is Some
                    &&& t.unwrap().pair@ == dashed_chars(pairs@[i]@, providers@[i]@)
                    &&& t.unwrap().price == answered_result(price_type, results@, i).unwrap()
                    &&& t.unwrap().sender@ == sender_id@
                    &&& t.unwrap().price_type == price_type
                },
    {
        let n = providers.len();
        for index in 0..n
            invariant
                self.wf(),
                n == providers@.len(),
                n == pairs@.len(),
                n == results@.len(),
                self.oracle == old(self).oracle,
                forall|k: Seq<char>|
                    (forall|i: int|
                        0 <= i < index ==> !(dashed_chars(pairs@[i]@, providers@[i]@) == k
                            && answered_result(price_type, results@, i) is Some)) ==> self
                        .spec_entry(k) == old(self).spec_entry(k),
                forall|i: int|
                    0 <= i < index && (#[trigger] answered_result(price_type, results@, i))
                        is Some && (forall|j: int|
                        i < j < index ==> !(dashed_chars(pairs@[j]@, providers@[j]@)
                            == dashed_chars(pairs@[i]@, providers@[i]@) && answered_result(
                            price_type,
                            results@,
                            j,
                        ) is Some)) ==> {
                        let t = self.spec_entry(dashed_chars(pairs@[i]@, providers@[i]@));
                        &&& t is Some
                        &&& t.unwrap().pair@ == dashed_chars(pairs@[i]@, providers@[i]@)
                        &&& t.unwrap().price == answered_result(price_type, results@, i).unwrap()
                        &&& t.unwrap().sender@ == sender_id@
                        &&& t.unwrap().price_type == price_type
                    },
        {
            let value = if matches!(price_type, PriceType::Mean | PriceType::Median) {
                results[0]
            } else {
                results[index]
            };
            assert(value == answered_result(price_type, results@, index as int));
            match value {
                Some(price) => {
                    let name = dashed_name(&pairs[index], &providers[index]);
                    let entry = PriceEntry {
                        pair: name,
                        price,
                        sender: sender_id.clone(),
                        price_type,
                    };
                    self.set_pair(entry);
                },
                None => {},
            }
        }
    }

    /// The cached answer for a provider-qualified pair, if the requester
    /// holds one.
    pub fn get_pair(&self, provider: String, pair: String) -> (r: Option<&PriceEntry>)
        ensures
            match r {
                Some(e) => self.spec_entry(dashed_chars(pair@, provider@)) == Some(*e),
                None => self.spec_entry(dashed_chars(pair@, provider@)) == None::<PriceEntry>,
            },
    {
        let name = dashed_name(&pair, &provider);
        match self.find_entry_index(&name) {
            Some(i) => Some(&self.pairs[i]),
            None => None,
        }
    }
}

} // verus!
