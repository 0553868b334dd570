use vstd::prelude::*;

use crate::errors::OracleError;
use crate::math::{mean, mean_of, median, median_of, sum_of};
use crate::oracle::FPOContract;
use crate::price_pair::PriceEntry;
use crate::wire::{qualified_chars, qualified_name};

verus! {

impl FPOContract {
    /// The provider-qualified entry read for position `i` of an
    /// aggregation request: the store entry named `{pair}:{provider}`.
    pub open spec fn entry_at(
        self,
        pairs: Seq<String>,
        providers: Seq<String>,
        i: int,
    ) -> Option<PriceEntry> {
        self.spec_pair(qualified_chars(pairs[i]@, providers[i]@))
    }

    /// Every requested provider-qualified entry exists.
    pub open spec fn all_present(self, pairs: Seq<String>, providers: Seq<String>) -> bool {
        forall|i: int| 0 <= i < pairs.len() ==> (#[trigger] self.entry_at(pairs, providers, i))
            is Some
    }

    /// Whether position `i` survives the freshness filter: its entry was
    /// updated at or after the floor. A stale entry is dropped from an
    /// aggregate, not zero-filled.
    pub open spec fn fresh_at(
        self,
        pairs: Seq<String>,
        providers: Seq<String>,
        min_last_update: u64,
        i: int,
    ) -> bool {
        self.entry_at(pairs, providers, i).unwrap().last_update >= min_last_update
    }

    /// The prices of the first `i` requested entries that survive the
    /// freshness filter, in request order.
    pub open spec fn surviving_prefix(
        self,
        pairs: Seq<String>,
        providers: Seq<String>,
        min_last_update: u64,
        i: int,
    ) -> Seq<u128>
        decreases i,
    {
        if i <= 0 {
            Seq::empty()
        } else {
            self.surviving_prefix(pairs, providers, min_last_update, i - 1) + (if self.fresh_at(
                pairs,
                providers,
                min_last_update,
                i - 1,
            ) {
                seq![self.entry_at(pairs, providers, i - 1).unwrap().price]
            } else {
                Seq::empty()
            })
        }
    }

    /// The prices that survive the freshness filter, in request order.
    pub open spec fn surviving(
        self,
        pairs: Seq<String>,
        providers: Seq<String>,
        min_last_update: u64,
    ) -> Seq<u128> {
        self.surviving_prefix(pairs, providers, min_last_update, pairs.len() as int)
    }

    /// The outcome `aggregate_avg` owes: the floor mean of the surviving
    /// prices, or the first applicable rejection.
    pub open spec fn avg_outcome(
        self,
        pairs: Seq<String>,
        providers: Seq<String>,
        min_last_update: u64,
    ) -> Result<u128, OracleError> {
        if pairs.len() != providers.len() {
            Err(OracleError::LengthMismatch)
        } else if !self.all_present(pairs, providers) {
            Err(OracleError::NotFound)
        } else if self.surviving(pairs, providers, min_last_update).len() == 0 {
            Err(OracleError::InsufficientFreshData)
        } else {
            Ok(mean_of(self.surviving(pairs, providers, min_last_update)) as u128)
        }
    }

    /// The outcome `aggregate_median` owes: the median of the surviving
    /// prices, or the first applicable rejection.
    pub open spec fn median_outcome(
        self,
        pairs: Seq<String>,
        providers: Seq<String>,
        min_last_update: u64,
    ) -> Result<u128, OracleError> {
        if pairs.len() != providers.len() {
            Err(OracleError::LengthMismatch)
        } else if !self.all_present(pairs, providers) {
            Err(OracleError::NotFound)
        } else if self.surviving(pairs, providers, min_last_update).len() == 0 {
            Err(OracleError::InsufficientFreshData)
        } else {
            Ok(median_of(self.surviving(pairs, providers, min_last_update)) as u128)
        }
    }

    /// The outcome `aggregate_collect` owes: one optional price per
    /// requested position, `None` exactly at the stale positions, with
    /// the full input length preserved.
    pub open spec fn collect_outcome(
        self,
        pairs: Seq<String>,
        providers: Seq<String>,
        min_last_update: u64,
    ) -> Result<Seq<Option<u128>>, OracleError> {
        if pairs.len() != providers.len() {
            Err(OracleError::LengthMismatch)
        } else if !self.all_present(pairs, providers) {
            Err(OracleError::NotFound)
        } else {
            Ok(
                Seq::new(
                    pairs.len(),
                    |i: int|
                        if self.fresh_at(pairs, providers, min_last_update, i) {
                            Some(self.entry_at(pairs, providers, i).unwrap().price)
                        } else {
                            None
                        },
                ),
            )
        }
    }

    /// The outcomes `aggregate_avg_many` owes from group `g` on: one
    /// entry per group, `None` where a group's data was all stale; a
    /// group's harder rejection aborts the whole call, earliest group
    /// first.
    pub open spec fn avg_many_from(
        self,
        pairs: Seq<Vec<String>>,
        providers: Seq<Vec<String>>,
        min_last_update: u64,
        g: int,
    ) -> Result<Seq<Option<u128>>, OracleError>
        decreases pairs.len() - g,
    {
        if g >= pairs.len() {
            Ok(Seq::empty())
        } else {
            let rest = self.avg_many_from(pairs, providers, min_last_update, g + 1);
            match self.avg_outcome(pairs[g]@, providers[g]@, min_last_update) {
                Ok(v) => match rest {
                    Ok(t) => Ok(seq![Some(v)] + t),
                    Err(e2) => Err(e2),
                },
                Err(e) => if e == OracleError::InsufficientFreshData {
                    match rest {
                        Ok(t) => Ok(seq![None::<u128>] + t),
                        Err(e2) => Err(e2),
                    }
                } else {
                    Err(e)
                },
            }
        }
    }

    /// The whole outcome `aggregate_avg_many` owes.
    pub open spec fn avg_many_outcome(
        self,
        pairs: Seq<Vec<String>>,
        providers: Seq<Vec<String>>,
        min_last_update: u64,
    ) -> Result<Seq<Option<u128>>, OracleError> {
        if pairs.len() != providers.len() {
            Err(OracleError::LengthMismatch)
        } else {
            self.avg_many_from(pairs, providers, min_last_update, 0)
        }
    }

    /// As `avg_many_from`, with the median in place of the mean.
    pub open spec fn median_many_from(
        self,
        pairs: Seq<Vec<String>>,
        providers: Seq<Vec<String>>,
        min_last_update: u64,
        g: int,
    ) -> Result<Seq<Option<u128>>, OracleError>
        decreases pairs.len() - g,
    {
        if g >= pairs.len() {
            Ok(Seq::empty())
        } else {
            let rest = self.median_many_from(pairs, providers, min_last_update, g + 1);
            match self.median_outcome(pairs[g]@, providers[g]@, min_last_update) {
                Ok(v) => match rest {
                    Ok(t) => Ok(seq![Some(v)] + t),
                    Err(e2) => Err(e2),
                },
                Err(e) => if e == OracleError::InsufficientFreshData {
                    match rest {
                        Ok(t) => Ok(seq![None::<u128>] + t),
                        Err(e2) => Err(e2),
                    }
                } else {
                    Err(e)
                },
            }
        }
    }

    /// The whole outcome `aggregate_median_many` owes.
    pub open spec fn median_many_outcome(
        self,
        pairs: Seq<Vec<String>>,
        providers: Seq<Vec<String>>,
        min_last_update: u64,
    ) -> Result<Seq<Option<u128>>, OracleError> {
        if pairs.len() != providers.len() {
            Err(OracleError::LengthMismatch)
        } else {
            self.median_many_from(pairs, providers, min_last_update, 0)
        }
    }

    /// The outcomes `aggregate_collect_many` owes from group `g` on: the
    /// per-position collection of each group; a group's rejection aborts
    /// the whole call, earliest group first.
    pub open spec fn collect_many_from(
        self,
        pairs: Seq<Vec<String>>,
        providers: Seq<Vec<String>>,
        min_last_update: u64,
        g: int,
    ) -> Result<Seq<Seq<Option<u128>>>, OracleError>
        decreases pairs.len() - g,
    {
        if g >= pairs.len() {
            Ok(Seq::empty())
        } else {
            let rest = self.collect_many_from(pairs, providers, min_last_update, g + 1);
            match self.collect_outcome(pairs[g]@, providers[g]@, min_last_update) {
                Ok(v) => match rest {
                    Ok(t) => Ok(seq![v] + t),
                    Err(e2) => Err(e2),
                },
                Err(e) => Err(e),
            }
        }
    }

    /// The whole outcome `aggregate_collect_many` owes.
    pub open spec fn collect_many_outcome(
        self,
        pairs: Seq<Vec<String>>,
        providers: Seq<Vec<String>>,
        min_last_update: u64,
    ) -> Result<Seq<Seq<Option<u128>>>, OracleError> {
        if pairs.len() != providers.len() {
            Err(OracleError::LengthMismatch)
        } else {
            self.collect_many_from(pairs, providers, min_last_update, 0)
        }
    }

    /// Collects the surviving prices for an aggregation request, or the
    /// rejection the request earns. Shared by the mean and median paths.
    fn collect_surviving(
        &self,
        pairs: &Vec<String>,
        providers: &Vec<String>,
        min_last_update: u64,
    ) -> (r: Result<Vec<u128>, OracleError>)
        ensures
            match r {
                Ok(vals) => {
                    &&& pairs@.len() == providers@.len()
                    &&& self.all_present(pairs@, providers@)
                    &&& vals@ == self.surviving(pairs@, providers@, min_last_update)
                },
                Err(e) => {
                    &&& (e == OracleError::LengthMismatch <==> pairs@.len() != providers@.len())
                    &&& (e == OracleError::NotFound <==> pairs@.len() == providers@.len()
                        && !self.all_present(pairs@, providers@))
                    &&& (e == OracleError::LengthMismatch || e == OracleError::NotFound)
                },
            },
    {
        if pairs.len() != providers.len() {
            return Err(OracleError::LengthMismatch);
        }
        let n = pairs.len();
        let mut vals: Vec<u128> = Vec::new();
        for i in 0..n
            invariant
                n == pairs@.len(),
                n == providers@.len(),
                forall|j: int|
                    0 <= j < i ==> (#[trigger] self.entry_at(pairs@, providers@, j)) is Some,
                vals@ == self.surviving_prefix(pairs@, providers@, min_last_update, i as int),
        {
            let name = qualified_name(&pairs[i], &providers[i]);
            match self.get_entry_option(&name) {
                None => {
                    assert(self.entry_at(pairs@, providers@, i as int) is None);
                    return Err(OracleError::NotFound);
                },
                Some(e) => {
                    assert(self.entry_at(pairs@, providers@, i as int) == Some(*e));
                    if e.last_update >= min_last_update {
                        vals.push(e.price);
                    }
                },
            }
        }
        Ok(vals)
    }

    /// The floor mean of the fresh entries among the requested
    /// provider-qualified pairs: stale entries leave both the sum and the
    /// divisor; if none survive the call fails rather than divide by zero.
    pub fn aggregate_avg(
        &self,
        pairs: &Vec<String>,
        providers: &Vec<String>,
        min_last_update: u64,
    ) -> (r: Result<u128, OracleError>)
        requires
            sum_of(self.surviving(pairs@, providers@, min_last_update)) <= u128::MAX,
        ensures
            r == self.avg_outcome(pairs@, providers@, min_last_update),
    {
        let vals = match self.collect_surviving(pairs, providers, min_last_update) {
            Err(e) => {
                return Err(e);
            },
            Ok(v) => v,
        };
        if vals.len() == 0 {
            return Err(OracleError::InsufficientFreshData);
        }
        Ok(mean(&vals))
    }

    /// The median of the fresh entries among the requested
    /// provider-qualified pairs, under the same freshness filter.
    pub fn aggregate_median(
        &self,
        pairs: &Vec<String>,
        providers: &Vec<String>,
        min_last_update: u64,
    ) -> (r: Result<u128, OracleError>)
        ensures
            r == self.median_outcome(pairs@, providers@, min_last_update),
    {
        let vals = match self.collect_surviving(pairs, providers, min_last_update) {
            Err(e) => {
                return Err(e);
            },
            Ok(v) => v,
        };
        if vals.len() == 0 {
            return Err(OracleError::InsufficientFreshData);
        }
        Ok(median(&vals))
    }

    /// The raw per-position prices of the requested provider-qualified
    /// pairs: `None` at the stale positions, the input length preserved.
    pub fn aggregate_collect(
        &self,
        pairs: &Vec<String>,
        providers: &Vec<String>,
        min_last_update: u64,
    ) -> (r: Result<Vec<Option<u128>>, OracleError>)
        ensures
            match self.collect_outcome(pairs@, providers@, min_last_update) {
                Ok(vs) => r is Ok && r.unwrap()@ == vs,
                Err(e) => r == Err::<Vec<Option<u128>>, OracleError>(e),
            },
    {
        if pairs.len() != providers.len() {
            return Err(OracleError::LengthMismatch);
        }
        let n = pairs.len();
        let mut out: Vec<Option<u128>> = Vec::new();
        for i in 0..n
            invariant
                n == pairs@.len(),
                n == providers@.len(),
                out@.len() == i,
                forall|j: int|
                    0 <= j < i ==> (#[trigger] self.entry_at(pairs@, providers@, j)) is Some,
                forall|j: int|
                    0 <= j < i ==> out@[j] == (if self.fresh_at(
                        pairs@,
                        providers@,
                        min_last_update,
                        j,
                    ) {
                        Some(self.entry_at(pairs@, providers@, j).unwrap().price)
                    } else {
                        None::<u128>
                    }),
        {
            let name = qualified_name(&pairs[i], &providers[i]);
            match self.get_entry_option(&name) {
                None => {
                    assert(self.entry_at(pairs@, providers@, i as int) is None);
                    return Err(OracleError::NotFound);
                },
                Some(e) => {
                    assert(self.entry_at(pairs@, providers@, i as int) == Some(*e));
                    if e.last_update >= min_last_update {
                        out.push(Some(e.price));
                    } else {
                        out.push(None);
                    }
                },
            }
        }
        proof {
            let vs = self.collect_outcome(pairs@, providers@, min_last_update).unwrap();
            assert(out@ =~= vs);
        }
        Ok(out)
    }

    /// Applies `aggregate_avg` to each parallel group of pairs and
    /// providers: one mean per group, `None` where a group's data was all
    /// stale; a group's harder rejection aborts the whole call.
    pub fn aggregate_avg_many(
        &self,
        pairs: &Vec<Vec<String>>,
        providers: &Vec<Vec<String>>,
        min_last_update: u64,
    ) -> (r: Result<Vec<Option<u128>>, OracleError>)
        requires
            forall|g: int|
                0 <= g < pairs@.len() ==> sum_of(
                    #[trigger] self.surviving(pairs@[g]@, providers@[g]@, min_last_update),
                ) <= u128::MAX,
        ensures
            match self.avg_many_outcome(pairs@, providers@, min_last_update) {
                Ok(vs) => r is Ok && r.unwrap()@ == vs,
                Err(e) => r == Err::<Vec<Option<u128>>, OracleError>(e),
            },
    {
        if pairs.len() != providers.len() {
            return Err(OracleError::LengthMismatch);
        }
        let n = pairs.len();
        let mut out: Vec<Option<u128>> = Vec::new();
        for g in 0..n
            invariant
                n == pairs@.len(),
                n == providers@.len(),
                forall|h: int|
                    0 <= h < n ==> sum_of(
                        #[trigger] self.surviving(pairs@[h]@, providers@[h]@, min_last_update),
                    ) <= u128::MAX,
                match self.avg_many_from(pairs@, providers@, min_last_update, g as int) {
                    Ok(t) => self.avg_many_from(pairs@, providers@, min_last_update, 0) == Ok::<
                        Seq<Option<u128>>,
                        OracleError,
                    >(out@ + t),
                    Err(e) => self.avg_many_from(pairs@, providers@, min_last_update, 0)
                        == Err::<Seq<Option<u128>>, OracleError>(e),
                },
        {
            let ghost pre = out@;
            match self.aggregate_avg(&pairs[g], &providers[g], min_last_update) {
                Ok(v) => {
                    out.push(Some(v));
                    proof {
                        assert forall|t2: Seq<Option<u128>>|
                            pre + (seq![Some(v)] + t2) =~= out@ + t2 by {}
                    }
                },
                Err(e) => {
                    if matches!(e, OracleError::InsufficientFreshData) {
                        out.push(None);
                        proof {
                            assert forall|t2: Seq<Option<u128>>|
                                pre + (seq![None::<u128>] + t2) =~= out@ + t2 by {}
                        }
                    } else {
                        return Err(e);
                    }
                },
            }
        }
        proof {
            assert(self.avg_many_from(pairs@, providers@, min_last_update, n as int) == Ok::<
                Seq<Option<u128>>,
                OracleError,
            >(Seq::empty()));
            assert(out@ + Seq::<Option<u128>>::empty() =~= out@);
        }
        Ok(out)
    }

    /// Applies `aggregate_median` to each parallel group of pairs and
    /// providers: one median per group, `None` where a group's data was
    /// all stale; a group's harder rejection aborts the whole call.
    pub fn aggregate_median_many(
        &self,
        pairs: &Vec<Vec<String>>,
        providers: &Vec<Vec<String>>,
        min_last_update: u64,
    ) -> (r: Result<Vec<Option<u128>>, OracleError>)
        ensures
            match self.median_many_outcome(pairs@, providers@, min_last_update) {
                Ok(vs) => r is Ok && r.unwrap()@ == vs,
                Err(e) => r == Err::<Vec<Option<u128>>, OracleError>(e),
            },
    {
        if pairs.len() != providers.len() {
            return Err(OracleError::LengthMismatch);
        }
        let n = pairs.len();
        let mut out: Vec<Option<u128>> = Vec::new();
        for g in 0..n
            invariant
                n == pairs@.len(),
                n == providers@.len(),
                match self.median_many_from(pairs@, providers@, min_last_update, g as int) {
                    Ok(t) => self.median_many_from(pairs@, providers@, min_last_update, 0) == Ok::<
                        Seq<Option<u128>>,
                        OracleError,
                    >(out@ + t),
                    Err(e) => self.median_many_from(pairs@, providers@, min_last_update, 0)
                        == Err::<Seq<Option<u128>>, OracleError>(e),
                },
        {
            let ghost pre = out@;
            match self.aggregate_median(&pairs[g], &providers[g], min_last_update) {
                Ok(v) => {
                    out.push(Some(v));
                    proof {
                        assert forall|t2: Seq<Option<u128>>|
                            pre + (seq![Some(v)] + t2) =~= out@ + t2 by {}
                    }
                },
                Err(e) => {
                    if matches!(e, OracleError::InsufficientFreshData) {
                        out.push(None);
                        proof {
                            assert forall|t2: Seq<Option<u128>>|
                                pre + (seq![None::<u128>] + t2) =~= out@ + t2 by {}
                        }
                    } else {
                        return Err(e);
                    }
                },
            }
        }
        proof {
            assert(self.median_many_from(pairs@, providers@, min_last_update, n as int) == Ok::<
                Seq<Option<u128>>,
                OracleError,
            >(Seq::empty()));
            assert(out@ + Seq::<Option<u128>>::empty() =~= out@);
        }
        Ok(out)
    }

    /// Applies `aggregate_collect` to each parallel group of pairs and
    /// providers; any group's rejection aborts the whole call.
    pub fn aggregate_collect_many(
        &self,
        pairs: &Vec<Vec<String>>,
        providers: &Vec<Vec<String>>,
        min_last_update: u64,
    ) -> (r: Result<Vec<Vec<Option<u128>>>, OracleError>)
        ensures
            match self.collect_many_outcome(pairs@, providers@, min_last_update) {
                Ok(vs) => r is Ok && group_views(r.unwrap()@) == vs,
                Err(e) => r == Err::<Vec<Vec<Option<u128>>>, OracleError>(e),
            },
    {
        if pairs.len() != providers.len() {
            return Err(OracleError::LengthMismatch);
        }
        let n = pairs.len();
        let mut out: Vec<Vec<Option<u128>>> = Vec::new();
        for g in 0..n
            invariant
                n == pairs@.len(),
                n == providers@.len(),
                match self.collect_many_from(pairs@, providers@, min_last_update, g as int) {
                    Ok(t) => self.collect_many_from(pairs@, providers@, min_last_update, 0)
                        == Ok::<Seq<Seq<Option<u128>>>, OracleError>(group_views(out@) + t),
                    Err(e) => self.collect_many_from(pairs@, providers@, min_last_update, 0)
                        == Err::<Seq<Seq<Option<u128>>>, OracleError>(e),
                },
        {
            let ghost pre = out@;
            match self.aggregate_collect(&pairs[g], &providers[g], min_last_update) {
                Ok(v) => {
                    let ghost vs = self.collect_outcome(
                        pairs@[g as int]@,
                        providers@[g as int]@,
                        min_last_update,
                    ).unwrap();
                    out.push(v);
                    proof {
                        assert(group_views(out@) =~= group_views(pre) + seq![vs]);
                        assert forall|t2: Seq<Seq<Option<u128>>>|
                            group_views(pre) + (seq![vs] + t2) =~= group_views(out@) + t2 by {}
                    }
                },
                Err(e) => {
                    return Err(e);
                },
            }
        }
        proof {
            assert(self.collect_many_from(pairs@, providers@, min_last_update, n as int) == Ok::<
                Seq<Seq<Option<u128>>>,
                OracleError,
            >(Seq::empty()));
            assert(group_views(out@) + Seq::<Seq<Option<u128>>>::empty() =~= group_views(out@));
        }
        Ok(out)
    }
}

/// A list of per-group collections as the sequence of their sequences.
pub open spec fn group_views(s: Seq<Vec<Option<u128>>>) -> Seq<Seq<Option<u128>>> {
    s.map_values(|v: Vec<Option<u128>>| v@)
}

} // verus!
