use vstd::prelude::*;

use crate::errors::OracleError;
use crate::math::{
    le_ord, lemma_adjacent_implies_sorted, lemma_le_ord_total, lemma_sorted_unique, mean_of_two,
    median_of,
};
use crate::oracle::FPOContract;
use crate::price_pair::{bytes_equal, contains_key, keys_view, PriceEntry};
use crate::sig::{sig_valid, verify_signature};
use crate::wire::{canonical_message, message_chars};

verus! {

/// Whether scan step `i` of a batch passes all four checks: the signer
/// is authorized, the signature verifies over the canonical message, the
/// signer has not appeared earlier in the batch, and the price does not
/// exceed its successor.
pub open spec fn step_ok(
    e: PriceEntry,
    pair: Seq<char>,
    sigs: Seq<Seq<u8>>,
    pks: Seq<Seq<u8>>,
    prices: Seq<u128>,
    round_id: u64,
    i: int,
) -> bool {
    &&& e.is_signer(pks[i])
    &&& sig_valid(message_chars(pair, round_id, prices[i]), sigs[i], pks[i])
    &&& forall|j: int| 0 <= j < i ==> pks[j] != pks[i]
    &&& (i + 1 < prices.len() ==> prices[i] <= prices[i + 1])
}

/// The verdict the batch scan reaches from index `i` on: the first check
/// that fails, in index order and, within one index, in the order
/// authorization, signature, duplication, sortedness; `None` when every
/// remaining step passes. This is the exact acceptance condition of the
/// signed submission protocol.
pub open spec fn batch_error_from(
    e: PriceEntry,
    pair: Seq<char>,
    sigs: Seq<Seq<u8>>,
    pks: Seq<Seq<u8>>,
    prices: Seq<u128>,
    round_id: u64,
    i: int,
) -> Option<OracleError>
    decreases prices.len() - i,
{
    if i >= prices.len() {
        None
    } else if !e.is_signer(pks[i]) {
        Some(OracleError::UnauthorizedSigner)
    } else if !sig_valid(message_chars(pair, round_id, prices[i]), sigs[i], pks[i]) {
        Some(OracleError::InvalidSignature)
    } else if exists|j: int| 0 <= j < i && pks[j] == pks[i] {
        Some(OracleError::DuplicateSigner)
    } else if i + 1 < prices.len() && prices[i] > prices[i + 1] {
        Some(OracleError::UnsortedPrices)
    } else {
        batch_error_from(e, pair, sigs, pks, prices, round_id, i + 1)
    }
}

/// The outcome `push_data_signed` owes for given arguments and a given
/// starting state: the first applicable rejection, or `None` when the
/// batch must commit. An empty batch never commits: there is no value to
/// take a median of.
pub open spec fn submit_verdict(
    o: FPOContract,
    sigs: Seq<Seq<u8>>,
    pks: Seq<Seq<u8>>,
    pair: Seq<char>,
    prices: Seq<u128>,
    round_id: u64,
) -> Option<OracleError> {
    if sigs.len() != prices.len() || sigs.len() != pks.len() {
        Some(OracleError::LengthMismatch)
    } else {
        match o.spec_pair(pair) {
            None => Some(OracleError::NotFound),
            Some(e) => {
                if e.latest_round_id != round_id {
                    Some(OracleError::RoundMismatch)
                } else if prices.len() < e.min_signers || prices.len() == 0 {
                    Some(OracleError::InsufficientSigners)
                } else {
                    batch_error_from(e, pair, sigs, pks, prices, round_id, 0)
                }
            },
        }
    }
}

/// The outcome `push_data` owes: the single-signer path is open only on a
/// pair whose minimum signer count is zero (no signature requirement),
/// to a caller whose key is in the signer set, at the current round.
pub open spec fn push_verdict(
    o: FPOContract,
    caller_pk: Seq<u8>,
    pair: Seq<char>,
    round_id: u64,
) -> Option<OracleError> {
    match o.spec_pair(pair) {
        None => Some(OracleError::NotFound),
        Some(e) => {
            if e.latest_round_id != round_id {
                Some(OracleError::RoundMismatch)
            } else if e.min_signers != 0 {
                Some(OracleError::InsufficientSigners)
            } else if !e.is_signer(caller_pk) {
                Some(OracleError::UnauthorizedSigner)
            } else {
                None
            }
        },
    }
}

impl FPOContract {
    /// Converts a batch of independently signed observations into one
    /// committed value for the pair's current round.
    ///
    /// The parallel arrays `signatures`, `signers_pks` and `prices` must
    /// have one entry per submission. The batch is rejected — with no
    /// state change at all — unless the lengths agree, the pair exists,
    /// the presented round id equals the pair's current round (replay
    /// protection), the batch is at least the pair's minimum signer count
    /// and non-empty, and every submission in order carries an authorized
    /// signer, a valid signature over the canonical message, no signer
    /// repeated within the batch, and prices pre-sorted ascending. On
    /// success the median of the submitted prices is committed and the
    /// round advances by one.
    pub fn push_data_signed(
        &mut self,
        signatures: Vec<Vec<u8>>,
        signers_pks: Vec<Vec<u8>>,
        pair: String,
        prices: Vec<u128>,
        round_id: u64,
        now: u64,
    ) -> (r: Result<(), OracleError>)
        requires
            old(self).wf(),
            old(self).has_pair(pair@) && old(self).spec_pair(pair@).unwrap().latest_round_id
                == round_id ==> round_id < u64::MAX,
        ensures
            final(self).wf(),
            r is Err ==> *final(self) == *old(self),
            ({
                let verdict = submit_verdict(
                    *old(self),
                    keys_view(signatures@),
                    keys_view(signers_pks@),
                    pair@,
                    prices@,
                    round_id,
                );
                match verdict {
                    Some(err) => r == Err::<(), OracleError>(err),
                    None => {
                        let e = old(self).spec_pair(pair@).unwrap();
                        &&& r == Ok::<(), OracleError>(())
                        &&& final(self).spec_pair(pair@) == Some(
                            (PriceEntry {
                                pair: e.pair,
                                price: median_of(prices@) as u128,
                                decimals: e.decimals,
                                last_update: now,
                                signers: e.signers,
                                latest_round_id: (round_id + 1) as u64,
                                min_signers: e.min_signers,
                            }),
                        )
                        &&& final(self).same_pairs_except(*old(self), pair@)
                        &&& final(self).same_but_pairs(*old(self))
                    },
                }
            }),
    {
        let ghost sv = keys_view(signatures@);
        let ghost kv = keys_view(signers_pks@);
        if signatures.len() != prices.len() || signatures.len() != signers_pks.len() {
            return Err(OracleError::LengthMismatch);
        }
        let entry = match self.get_entry_option(&pair) {
            None => {
                return Err(OracleError::NotFound);
            },
            Some(e) => e,
        };
        let ghost e0 = *entry;
        if entry.latest_round_id != round_id {
            return Err(OracleError::RoundMismatch);
        }
        let n = prices.len();
        if (n as u64) < entry.min_signers || n == 0 {
            return Err(OracleError::InsufficientSigners);
        }
        for i in 0..n
            invariant
                *self == *old(self),
                old(self).wf(),
                old(self).spec_pair(pair@) == Some(e0),
                e0 == *entry,
                e0.latest_round_id == round_id,
                n as u64 >= e0.min_signers,
                n > 0,
                n == prices@.len(),
                n == signatures@.len(),
                n == signers_pks@.len(),
                sv == keys_view(signatures@),
                kv == keys_view(signers_pks@),
                batch_error_from(e0, pair@, sv, kv, prices@, round_id, 0) == batch_error_from(
                    e0,
                    pair@,
                    sv,
                    kv,
                    prices@,
                    round_id,
                    i as int,
                ),
                forall|j: int| 0 <= j < i && j + 1 < n ==> #[trigger] prices@[j] <= prices@[j
                    + 1],
        {
            proof {
                assert(kv[i as int] == signers_pks@[i as int]@);
                assert(sv[i as int] == signatures@[i as int]@);
            }
            if !contains_key(&entry.signers, &signers_pks[i]) {
                assert(batch_error_from(e0, pair@, sv, kv, prices@, round_id, i as int) == Some(
                    OracleError::UnauthorizedSigner,
                ));
                return Err(OracleError::UnauthorizedSigner);
            }
            let msg = canonical_message(&pair, round_id, prices[i]);
            if !verify_signature(msg.as_str(), &signatures[i], &signers_pks[i]) {
                assert(batch_error_from(e0, pair@, sv, kv, prices@, round_id, i as int) == Some(
                    OracleError::InvalidSignature,
                ));
                return Err(OracleError::InvalidSignature);
            }
            let mut j: usize = 0;
            while j < i
                invariant
                    *self == *old(self),
                    old(self).wf(),
                    0 <= j <= i < n,
                    n == signers_pks@.len(),
                    n == prices@.len(),
                    n == signatures@.len(),
                    n > 0,
                    kv == keys_view(signers_pks@),
                    sv == keys_view(signatures@),
                    old(self).spec_pair(pair@) == Some(e0),
                    e0.latest_round_id == round_id,
                    n as u64 >= e0.min_signers,
                    batch_error_from(e0, pair@, sv, kv, prices@, round_id, 0) == batch_error_from(
                        e0,
                        pair@,
                        sv,
                        kv,
                        prices@,
                        round_id,
                        i as int,
                    ),
                    e0.is_signer(kv[i as int]),
                    sig_valid(
                        message_chars(pair@, round_id, prices@[i as int]),
                        sv[i as int],
                        kv[i as int],
                    ),
                    forall|l: int| 0 <= l < j ==> kv[l] != kv[i as int],
                decreases i - j,
            {
                proof {
                    assert(kv[j as int] == signers_pks@[j as int]@);
                }
                if bytes_equal(&signers_pks[j], &signers_pks[i]) {
                    assert(kv[j as int] == kv[i as int]);
                    assert(batch_error_from(e0, pair@, sv, kv, prices@, round_id, i as int)
                        == Some(OracleError::DuplicateSigner));
                    return Err(OracleError::DuplicateSigner);
                }
                j += 1;
            }
            if i + 1 < n && prices[i] > prices[i + 1] {
                assert(batch_error_from(e0, pair@, sv, kv, prices@, round_id, i as int) == Some(
                    OracleError::UnsortedPrices,
                ));
                return Err(OracleError::UnsortedPrices);
            }
            proof {
                assert(!(exists|l: int| 0 <= l < i && kv[l] == kv[i as int]));
                assert(batch_error_from(e0, pair@, sv, kv, prices@, round_id, i as int)
                    == batch_error_from(e0, pair@, sv, kv, prices@, round_id, i as int + 1));
            }
        }
        assert(batch_error_from(e0, pair@, sv, kv, prices@, round_id, n as int)
            == None::<OracleError>);
        let mid = n / 2;
        let m: u128;
        if n % 2 == 0 {
            let lo = prices[mid - 1];
            let hi = prices[mid];
            m = mean_of_two(lo, hi);
        } else {
            m = prices[mid];
        }
        proof {
            lemma_adjacent_implies_sorted(prices@);
            lemma_le_ord_total();
            prices@.lemma_sort_by_ensures(le_ord());
            lemma_sorted_unique(prices@, prices@.sort_by(le_ord()));
            assert(prices@.sort_by(le_ord()) == prices@);
            assert(m as int == median_of(prices@));
        }
        let res = self.set_price(&pair, m, now);
        proof {
            assert(res is Ok);
        }
        res
    }

    /// The single-signer compatibility path: commits the caller's raw
    /// price — no median step — on a pair configured with no signature
    /// requirement. The caller's key must be in the pair's signer set and
    /// the presented round id must be the current round.
    pub fn push_data(
        &mut self,
        caller_pk: &Vec<u8>,
        pair: String,
        price: u128,
        round_id: u64,
        now: u64,
    ) -> (r: Result<(), OracleError>)
        requires
            old(self).wf(),
            old(self).has_pair(pair@) && old(self).spec_pair(pair@).unwrap().latest_round_id
                == round_id ==> round_id < u64::MAX,
        ensures
            final(self).wf(),
            r is Err ==> *final(self) == *old(self),
            ({
                let verdict = push_verdict(*old(self), caller_pk@, pair@, round_id);
                match verdict {
                    Some(err) => r == Err::<(), OracleError>(err),
                    None => {
                        let e = old(self).spec_pair(pair@).unwrap();
                        &&& r == Ok::<(), OracleError>(())
                        &&& final(self).spec_pair(pair@) == Some(
                            (PriceEntry {
                                pair: e.pair,
                                price,
                                decimals: e.decimals,
                                last_update: now,
                                signers: e.signers,
                                latest_round_id: (round_id + 1) as u64,
                                min_signers: e.min_signers,
                            }),
                        )
                        &&& final(self).same_pairs_except(*old(self), pair@)
                        &&& final(self).same_but_pairs(*old(self))
                    },
                }
            }),
    {
        let entry = match self.get_entry_option(&pair) {
            None => {
                return Err(OracleError::NotFound);
            },
            Some(e) => e,
        };
        if entry.latest_round_id != round_id {
            return Err(OracleError::RoundMismatch);
        }
        if entry.min_signers != 0 {
            return Err(OracleError::InsufficientSigners);
        }
        if !contains_key(&entry.signers, caller_pk) {
            return Err(OracleError::UnauthorizedSigner);
        }
        let res = self.set_price(&pair, price, now);
        proof {
            assert(res is Ok);
        }
        res
    }
}

} // verus!
