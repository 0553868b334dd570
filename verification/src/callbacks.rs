use vstd::prelude::*;

use crate::errors::OracleError;
use crate::oracle::FPOContract;

verus! {

/// What shape a forwarded result has: one pair's price, one price per
/// pair, or one reduced value (a mean or a median) standing for the
/// whole group; `Collect` is `Multiple` under a freshness floor.
#[derive(Clone, Copy, Debug, PartialEq, Eq, Structural)]
pub enum PriceType {
    Single,
    Multiple,
    Mean,
    Median,
    Collect,
}

/// The interface a consumer of forwarded prices exposes. The oracle
/// guarantees the argument order and one result per input pair, in input
/// order, and nothing more; the host's asynchronous delivery mechanism
/// carries the call, so nothing here is awaited or retried.
pub trait PriceConsumer {
    /// Receives prices forwarded by `get_price_call` or `get_prices_call`.
    fn on_price_received(
        &mut self,
        sender_id: String,
        pairs: Vec<String>,
        price_type: PriceType,
        results: Vec<Option<u128>>,
    );

    /// Receives a resolved registry forwarded by `registry_aggregate_call`.
    fn on_registry_prices_received(
        &mut self,
        sender_id: String,
        pairs: Vec<String>,
        results: Vec<Option<u128>>,
        registry_owner: String,
    );
}

/// Everything a price forward hands to the delivery mechanism, in the
/// order the consumer receives it.
pub struct PriceForward {
    /// The account on whose behalf the prices are forwarded.
    pub sender_id: String,
    /// The pairs read, in input order.
    pub pairs: Vec<String>,
    /// Whether one price or many are carried.
    pub price_type: PriceType,
    /// One result per pair, in input order.
    pub results: Vec<Option<u128>>,
    /// The consumer contract to deliver to.
    pub receiver_id: String,
}

/// Everything a registry forward hands to the delivery mechanism.
pub struct RegistryForward {
    /// The account on whose behalf the registry was resolved.
    pub sender_id: String,
    /// The registry's stored pairs, in stored order.
    pub pairs: Vec<String>,
    /// One result per stored pair, in stored order.
    pub results: Vec<Option<u128>>,
    /// The account owning the resolved registry.
    pub registry_owner: String,
    /// The consumer contract to deliver to.
    pub receiver_id: String,
}

impl FPOContract {
    /// Assembles the payload that forwards one pair's price to a
    /// consumer: a single-element pair list and its single result.
    pub fn get_price_call(&self, sender_id: String, pair: String, receiver_id: String) -> (r:
        PriceForward)
        ensures
            r.sender_id == sender_id,
            r.receiver_id == receiver_id,
            r.price_type == PriceType::Single,
            r.pairs@.len() == 1,
            r.pairs@[0] == pair,
            r.results@.len() == 1,
            r.results@[0] == self.spec_price(pair@),
    {
        let price = self.get_price_ref(&pair);
        let mut pairs: Vec<String> = Vec::new();
        let mut results: Vec<Option<u128>> = Vec::new();
        pairs.push(pair);
        results.push(price);
        PriceForward { sender_id, pairs, price_type: PriceType::Single, results, receiver_id }
    }

    /// Assembles the payload that forwards several pairs' prices to a
    /// consumer: one result per input pair, in input order.
    pub fn get_prices_call(&self, sender_id: String, pairs: Vec<String>, receiver_id: String)
        -> (r: PriceForward)
        ensures
            r.sender_id == sender_id,
            r.receiver_id == receiver_id,
            r.price_type == PriceType::Multiple,
            r.pairs == pairs,
            r.results@.len() == pairs@.len(),
            forall|i: int|
                0 <= i < pairs@.len() ==> r.results@[i] == self.spec_price(pairs@[i]@),
    {
        let results = self.get_prices(&pairs);
        PriceForward { sender_id, pairs, price_type: PriceType::Multiple, results, receiver_id }
    }

    /// Assembles the payload that forwards a resolved registry to a
    /// consumer: the registry's stored pairs and one result per pair, in
    /// stored order; `NotFound` when the owner has no registry.
    pub fn registry_aggregate_call(
        &self,
        sender_id: String,
        registry_owner: String,
        receiver_id: String,
    ) -> (r: Result<RegistryForward, OracleError>)
        ensures
            match self.registry_median_outcome(registry_owner@) {
                Ok(vs) => {
                    &&& r is Ok
                    &&& r.unwrap().sender_id == sender_id
                    &&& r.unwrap().receiver_id == receiver_id
                    &&& r.unwrap().registry_owner == registry_owner
                    &&& r.unwrap().results@ == vs
                    &&& r.unwrap().pairs@.len() == vs.len()
                    &&& {
                        let stored = self.spec_registry(registry_owner@).unwrap().registry.pairs;
                        forall|i: int|
                            0 <= i < vs.len() ==> #[trigger] r.unwrap().pairs@[i]@ == stored@[i]@
                    }
                },
                Err(e) => r == Err::<RegistryForward, OracleError>(e),
            },
    {
        let results = match self.registry_aggregate_median(registry_owner.clone()) {
            Err(e) => {
                return Err(e);
            },
            Ok(v) => v,
        };
        let reg = match self.get_registry_pairs(&registry_owner) {
            None => {
                // The registry resolved a moment ago, so it is present.
                return Err(OracleError::NotFound);
            },
            Some(p) => p,
        };
        Ok(
            RegistryForward {
                sender_id,
                pairs: reg,
                results,
                registry_owner,
                receiver_id,
            },
        )
    }

    /// A copy of the stored pair list of an owner's registry.
    fn get_registry_pairs(&self, owner: &String) -> (r: Option<Vec<String>>)
        ensures
            match self.spec_registry(owner@) {
                Some(or) => {
                    &&& r is Some
                    &&& r.unwrap()@.len() == or.registry.pairs@.len()
                    &&& forall|i: int|
                        0 <= i < or.registry.pairs@.len() ==> #[trigger] r.unwrap()@[i]@
                            == or.registry.pairs@[i]@
                },
                None => r is None,
            },
    {
        match self.find_registry_index(owner) {
            Some(k) => {
                let src_pairs = &self.registries[k].registry.pairs;
                let m = src_pairs.len();
                let mut out: Vec<String> = Vec::new();
                for i in 0..m
                    invariant
                        m == src_pairs@.len(),
                        out@.len() == i,
                        forall|j: int| 0 <= j < i ==> #[trigger] out@[j]@ == src_pairs@[j]@,
                {
                    out.push(src_pairs[i].clone());
                }
                Some(out)
            },
            None => None,
        }
    }
}

} // verus!
