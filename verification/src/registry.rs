use vstd::prelude::*;

use crate::errors::OracleError;
use crate::oracle::FPOContract;
use crate::store::{lemma_lookup_found, lemma_lookup_none, lemma_lookup_push, lemma_lookup_update};

verus! {

/// A caller-owned, reusable list of pair symbols for batched reads,
/// together with the freshness floor applied when it is resolved.
pub struct Registry {
    /// The pair symbols to read, in order.
    pub pairs: Vec<String>,
    /// Entries whose `last_update` is below this floor are reported absent.
    pub min_last_update: u64,
}

/// A registry together with the account that owns it; the owner is the
/// key under which the store finds the registry.
pub struct OwnedRegistry {
    /// The account that created the registry.
    pub owner: String,
    /// The stored registry.
    pub registry: Registry,
}

impl FPOContract {
    /// The value a resolved registry reports for its `i`-th pair: the
    /// stored price if the pair exists and passes the registry's
    /// freshness floor, `None` otherwise.
    pub open spec fn registry_value(self, reg: Registry, i: int) -> Option<u128> {
        match self.spec_pair(reg.pairs@[i]@) {
            Some(e) => if e.last_update >= reg.min_last_update {
                Some(e.price)
            } else {
                None
            },
            None => None,
        }
    }

    /// The outcome `registry_aggregate_median` owes: one optional value
    /// per stored pair, in stored order. Each registry element names one
    /// pair, so the median over an element is that element's reading.
    pub open spec fn registry_median_outcome(self, owner: Seq<char>) -> Result<
        Seq<Option<u128>>,
        OracleError,
    > {
        match self.spec_registry(owner) {
            None => Err(OracleError::NotFound),
            Some(or) => Ok(
                Seq::new(or.registry.pairs@.len(), |i: int| self.registry_value(or.registry, i)),
            ),
        }
    }

    /// The index of the registry owned by this account, scanning from the
    /// front, together with everything the lookup model says about it.
    pub(crate) fn find_registry_index(&self, owner: &String) -> (r: Option<usize>)
        ensures
            match r {
                Some(i) => {
                    &&& 0 <= i < self.registries@.len()
                    &&& self.registries@[i as int].owner@ == owner@
                    &&& forall|j: int| 0 <= j < i ==> self.registries@[j].owner@ != owner@
                    &&& self.spec_registry(owner@) == Some(self.registries@[i as int])
                },
                None => self.spec_registry(owner@) == None::<OwnedRegistry>,
            },
    {
        let n = self.registries.len();
        for i in 0..n
            invariant
                n == self.registries@.len(),
                forall|j: int| 0 <= j < i ==> self.registries@[j].owner@ != owner@,
        {
            if self.registries[i].owner == *owner {
                proof {
                    lemma_lookup_found(self.registries@, Self::registry_key(), i as int);
                }
                return Some(i);
            }
        }
        proof {
            lemma_lookup_none(self.registries@, Self::registry_key(), owner@);
        }
        None
    }

    /// Creates or replaces the caller's registry wholesale: the stored
    /// pair list and freshness floor become exactly the given ones; no
    /// merge with an earlier registry under the same owner takes place.
    pub fn create_registry(&mut self, caller: &String, pairs: Vec<String>, min_last_update: u64)
        requires
            old(self).wf(),
        ensures
            final(self).wf(),
            final(self).spec_registry(caller@) is Some,
            final(self).spec_registry(caller@).unwrap().owner@ == caller@,
            final(self).spec_registry(caller@).unwrap().registry.pairs == pairs,
            final(self).spec_registry(caller@).unwrap().registry.min_last_update
                == min_last_update,
            forall|k: Seq<char>|
                k != caller@ ==> final(self).spec_registry(k) == old(self).spec_registry(k),
            final(self).admin == old(self).admin,
            final(self).pairs == old(self).pairs,
            final(self).accounts == old(self).accounts,
    {
        let ghost pre = self.registries@;
        let ghost key = Self::registry_key();
        match self.find_registry_index(caller) {
            Some(i) => {
                let e = &mut self.registries[i];
                e.registry = Registry { pairs, min_last_update };
                proof {
                    let t = self.registries@[i as int];
                    assert(self.registries@ == pre.update(i as int, t));
                    lemma_lookup_update(pre, key, i as int, t);
                }
            },
            None => {
                let entry = OwnedRegistry {
                    owner: caller.clone(),
                    registry: Registry { pairs, min_last_update },
                };
                self.registries.push(entry);
                proof {
                    lemma_lookup_push(pre, key, entry.owner@, entry);
                    assert forall|k: Seq<char>| k != entry.owner@ implies final(self)
                        .spec_registry(k) == old(self).spec_registry(k) by {
                        lemma_lookup_push(pre, key, k, entry);
                    }
                    assert forall|i: int, j: int|
                        0 <= i < j < self.registries@.len() implies self.registries@[i].owner@
                        != self.registries@[j].owner@ by {
                        if j == pre.len() as int {
                            if key(pre[i]) == key(entry) {
                                lemma_lookup_found(pre, key, i);
                            }
                        }
                    }
                }
            },
        }
    }

    /// Resolves the caller-named registry and reports, per stored pair in
    /// stored order, the pair's price — or `None` where the pair is
    /// missing or older than the registry's freshness floor. Fails with
    /// `NotFound` when no registry exists for the owner.
    pub fn registry_aggregate_median(&self, registry_owner: String) -> (r: Result<
        Vec<Option<u128>>,
        OracleError,
    >)
        ensures
            match self.registry_median_outcome(registry_owner@) {
                Ok(vs) => r is Ok && r.unwrap()@ == vs,
                Err(e) => r == Err::<Vec<Option<u128>>, OracleError>(e),
            },
    {
        let idx = match self.find_registry_index(&registry_owner) {
            None => {
                return Err(OracleError::NotFound);
            },
            Some(i) => i,
        };
        let reg = &self.registries[idx].registry;
        let n = reg.pairs.len();
        let mut out: Vec<Option<u128>> = Vec::new();
        for i in 0..n
            invariant
                n == reg.pairs@.len(),
                out@.len() == i,
                forall|j: int| 0 <= j < i ==> out@[j] == self.registry_value(*reg, j),
        {
            match self.get_entry_option(&reg.pairs[i]) {
                Some(e) => {
                    if e.last_update >= reg.min_last_update {
                        out.push(Some(e.price));
                    } else {
                        out.push(None);
                    }
                },
                None => {
                    out.push(None);
                },
            }
        }
        proof {
            let vs = self.registry_median_outcome(registry_owner@).unwrap();
            assert(out@ =~= vs);
        }
        Ok(out)
    }
}

} // verus!
