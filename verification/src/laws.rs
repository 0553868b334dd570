use vstd::prelude::*;

use crate::errors::OracleError;
use crate::oracle::FPOContract;
use crate::price_pair::PriceEntry;
use crate::submit::{batch_error_from, step_ok, submit_verdict};

verus! {

/// One successful round commit on the pair named `sym`, at round `r`:
/// exactly what `commit_round`, `push_data_signed` and `push_data`
/// guarantee of the pair's counter on success.
pub open spec fn commit_step_at(
    pre: FPOContract,
    post: FPOContract,
    sym: Seq<char>,
    r: u64,
) -> bool {
    &&& pre.has_pair(sym)
    &&& post.has_pair(sym)
    &&& pre.spec_pair(sym).unwrap().latest_round_id == r
    &&& r < u64::MAX
    &&& post.spec_pair(sym).unwrap().latest_round_id == r + 1
}

/// One successful round commit on `sym`, at whatever round it stood.
pub open spec fn commit_step(pre: FPOContract, post: FPOContract, sym: Seq<char>) -> bool {
    exists|r: u64| commit_step_at(pre, post, sym, r)
}

/// The pair's round counter, read as a plain integer.
pub open spec fn round_of(o: FPOContract, sym: Seq<char>) -> int
    recommends
        o.has_pair(sym),
{
    o.spec_pair(sym).unwrap().latest_round_id as int
}

proof fn lemma_round_chain(states: Seq<FPOContract>, sym: Seq<char>, i: int)
    requires
        forall|k: int|
            0 <= k < states.len() - 1 ==> #[trigger] commit_step(states[k], states[k + 1], sym),
        0 <= i < states.len(),
        states.len() >= 1,
        states[0].has_pair(sym),
    ensures
        states[i].has_pair(sym),
        round_of(states[i], sym) == round_of(states[0], sym) + i,
    decreases i,
{
    if i > 0 {
        lemma_round_chain(states, sym, i - 1);
        assert(commit_step(states[i - 1], states[(i - 1) + 1], sym));
        let r = choose|r: u64| #[trigger] commit_step_at(states[i - 1], states[i], sym, r);
    }
}

/// Round monotonicity: across any chain of successful commits on one
/// pair, the round counter climbs by exactly one per commit — after N
/// commits it stands at its initial value plus N, strictly increasing,
/// with no gaps and no repeats.
pub proof fn lemma_round_monotonicity(states: Seq<FPOContract>, sym: Seq<char>)
    requires
        states.len() >= 1,
        states[0].has_pair(sym),
        forall|k: int|
            0 <= k < states.len() - 1 ==> #[trigger] commit_step(states[k], states[k + 1], sym),
    ensures
        forall|i: int| 0 <= i < states.len() ==> #[trigger] states[i].has_pair(sym),
        forall|i: int|
            0 <= i < states.len() ==> #[trigger] round_of(states[i], sym) == round_of(
                states[0],
                sym,
            ) + i,
        forall|i: int, j: int|
            0 <= i < j < states.len() ==> round_of(states[i], sym) < round_of(states[j], sym),
{
    assert forall|i: int| 0 <= i < states.len() implies #[trigger] states[i].has_pair(sym) by {
        lemma_round_chain(states, sym, i);
    }
    assert forall|i: int| 0 <= i < states.len() implies #[trigger] round_of(states[i], sym)
        == round_of(states[0], sym) + i by {
        lemma_round_chain(states, sym, i);
    }
    assert forall|i: int, j: int| 0 <= i < j < states.len() implies round_of(states[i], sym)
        < round_of(states[j], sym) by {
        lemma_round_chain(states, sym, i);
        lemma_round_chain(states, sym, j);
    }
}

/// Replay rejection: once a round has committed, resubmitting any batch
/// that presents the committed round id — the very batch that succeeded
/// included — earns `RoundMismatch`, whatever its signatures say. With
/// the all-or-nothing guarantee of `push_data_signed`, the price is not
/// re-applied.
pub proof fn lemma_replay_rejected(
    pre: FPOContract,
    post: FPOContract,
    sym: Seq<char>,
    sigs: Seq<Seq<u8>>,
    pks: Seq<Seq<u8>>,
    prices: Seq<u128>,
    r: u64,
)
    requires
        commit_step_at(pre, post, sym, r),
        sigs.len() == prices.len(),
        sigs.len() == pks.len(),
    ensures
        submit_verdict(post, sigs, pks, sym, prices, r) == Some(OracleError::RoundMismatch),
{
}

/// A batch scan that passes its first `i` steps reaches step `i` with
/// its verdict still open.
proof fn lemma_batch_skip(
    e: PriceEntry,
    pair: Seq<char>,
    sigs: Seq<Seq<u8>>,
    pks: Seq<Seq<u8>>,
    prices: Seq<u128>,
    round_id: u64,
    i: int,
)
    requires
        0 <= i <= prices.len(),
        forall|j: int| 0 <= j < i ==> #[trigger] step_ok(e, pair, sigs, pks, prices, round_id, j),
    ensures
        batch_error_from(e, pair, sigs, pks, prices, round_id, 0) == batch_error_from(
            e,
            pair,
            sigs,
            pks,
            prices,
            round_id,
            i,
        ),
    decreases i,
{
    if i > 0 {
        lemma_batch_skip(e, pair, sigs, pks, prices, round_id, i - 1);
        assert(step_ok(e, pair, sigs, pks, prices, round_id, i - 1));
    }
}

/// Signer-set authorization, exact form: when every submission before
/// position `i` passes all checks and position `i`'s key is not in the
/// pair's signer set, the batch is rejected with `UnauthorizedSigner` —
/// no hypothesis about the signature at `i` appears, so the rejection
/// holds regardless of signature validity.
pub proof fn lemma_unauthorized_signer_rejected(
    o: FPOContract,
    sigs: Seq<Seq<u8>>,
    pks: Seq<Seq<u8>>,
    pair: Seq<char>,
    prices: Seq<u128>,
    round_id: u64,
    i: int,
)
    requires
        sigs.len() == prices.len(),
        sigs.len() == pks.len(),
        o.spec_pair(pair) is Some,
        o.spec_pair(pair).unwrap().latest_round_id == round_id,
        prices.len() >= o.spec_pair(pair).unwrap().min_signers,
        prices.len() > 0,
        0 <= i < prices.len(),
        !o.spec_pair(pair).unwrap().is_signer(pks[i]),
        forall|j: int|
            0 <= j < i ==> #[trigger] step_ok(
                o.spec_pair(pair).unwrap(),
                pair,
                sigs,
                pks,
                prices,
                round_id,
                j,
            ),
    ensures
        submit_verdict(o, sigs, pks, pair, prices, round_id) == Some(
            OracleError::UnauthorizedSigner,
        ),
{
    let e = o.spec_pair(pair).unwrap();
    lemma_batch_skip(e, pair, sigs, pks, prices, round_id, i);
}

/// All-or-nothing commit: a batch that anywhere fails a check — a signer
/// outside the pair's set, a signature that does not verify, a signer
/// repeated, or a price above its successor — never commits: the verdict
/// is some rejection, and `push_data_signed` guarantees that a rejected
/// call leaves the pair's price, timestamp and round exactly as they
/// were.
pub proof fn lemma_flawed_batch_never_commits(
    o: FPOContract,
    sigs: Seq<Seq<u8>>,
    pks: Seq<Seq<u8>>,
    pair: Seq<char>,
    prices: Seq<u128>,
    round_id: u64,
    i: int,
)
    requires
        0 <= i < prices.len(),
        o.spec_pair(pair) is Some ==> !step_ok(
            o.spec_pair(pair).unwrap(),
            pair,
            sigs,
            pks,
            prices,
            round_id,
            i,
        ),
    ensures
        submit_verdict(o, sigs, pks, pair, prices, round_id) is Some,
{
    if sigs.len() == prices.len() && sigs.len() == pks.len() {
        match o.spec_pair(pair) {
            None => {},
            Some(e) => {
                if e.latest_round_id == round_id && prices.len() >= e.min_signers
                    && prices.len() > 0 {
                    lemma_batch_stuck(e, pair, sigs, pks, prices, round_id, 0, i);
                }
            },
        }
    }
}

/// Signer-set authorization, blanket form: a batch that anywhere carries
/// a key outside the pair's signer set never commits — whatever else the
/// batch contains, and however valid its signatures.
pub proof fn lemma_batch_with_unauthorized_signer_fails(
    o: FPOContract,
    sigs: Seq<Seq<u8>>,
    pks: Seq<Seq<u8>>,
    pair: Seq<char>,
    prices: Seq<u128>,
    round_id: u64,
    i: int,
)
    requires
        0 <= i < prices.len(),
        o.spec_pair(pair) is Some ==> !o.spec_pair(pair).unwrap().is_signer(pks[i]),
    ensures
        submit_verdict(o, sigs, pks, pair, prices, round_id) is Some,
{
    lemma_flawed_batch_never_commits(o, sigs, pks, pair, prices, round_id, i);
}

/// From any position at or before a failing one, the scan ends in a
/// rejection.
proof fn lemma_batch_stuck(
    e: PriceEntry,
    pair: Seq<char>,
    sigs: Seq<Seq<u8>>,
    pks: Seq<Seq<u8>>,
    prices: Seq<u128>,
    round_id: u64,
    k: int,
    i: int,
)
    requires
        0 <= k <= i < prices.len(),
        !step_ok(e, pair, sigs, pks, prices, round_id, i),
    ensures
        batch_error_from(e, pair, sigs, pks, prices, round_id, k) is Some,
    decreases i - k,
{
    if k < i && e.is_signer(pks[k]) && sig_ok_at(e, pair, sigs, pks, prices, round_id, k)
        && !(exists|j: int| 0 <= j < k && pks[j] == pks[k]) && !(k + 1 < prices.len()
        && prices[k] > prices[k + 1]) {
        lemma_batch_stuck(e, pair, sigs, pks, prices, round_id, k + 1, i);
    }
}

/// The values standing at the `Some` positions of a collection result,
/// in order.
pub open spec fn somes(s: Seq<Option<u128>>) -> Seq<u128>
    decreases s.len(),
{
    if s.len() == 0 {
        Seq::empty()
    } else {
        somes(s.drop_last()) + (match s.last() {
            Some(v) => seq![v],
            None => Seq::empty(),
        })
    }
}

proof fn lemma_surviving_prefix_somes(
    o: FPOContract,
    pairs: Seq<String>,
    providers: Seq<String>,
    min_last_update: u64,
    i: int,
)
    requires
        pairs.len() == providers.len(),
        o.all_present(pairs, providers),
        0 <= i <= pairs.len(),
    ensures
        o.surviving_prefix(pairs, providers, min_last_update, i) == somes(
            o.collect_outcome(pairs, providers, min_last_update).unwrap().take(i),
        ),
    decreases i,
{
    let cs = o.collect_outcome(pairs, providers, min_last_update).unwrap();
    if i == 0 {
        assert(cs.take(0) =~= Seq::<Option<u128>>::empty());
    } else {
        lemma_surviving_prefix_somes(o, pairs, providers, min_last_update, i - 1);
        assert(cs.take(i).drop_last() =~= cs.take(i - 1));
        assert(cs.take(i).last() == cs[i - 1]);
    }
}

/// Freshness exclusion: an aggregation reads exactly the entries at or
/// above the freshness floor. The collection result keeps the full input
/// length and is `None` precisely at the stale positions, and the values
/// the mean and the median are taken over are precisely the values at
/// its `Some` positions, in input order.
pub proof fn lemma_freshness_exclusion(
    o: FPOContract,
    pairs: Seq<String>,
    providers: Seq<String>,
    min_last_update: u64,
)
    requires
        pairs.len() == providers.len(),
        o.all_present(pairs, providers),
    ensures
        o.collect_outcome(pairs, providers, min_last_update) is Ok,
        o.collect_outcome(pairs, providers, min_last_update).unwrap().len() == pairs.len(),
        forall|i: int|
            0 <= i < pairs.len() ==> ((#[trigger] o.collect_outcome(
                pairs,
                providers,
                min_last_update,
            ).unwrap()[i]) is None <==> !o.fresh_at(pairs, providers, min_last_update, i)),
        o.surviving(pairs, providers, min_last_update) == somes(
            o.collect_outcome(pairs, providers, min_last_update).unwrap(),
        ),
{
    let cs = o.collect_outcome(pairs, providers, min_last_update).unwrap();
    lemma_surviving_prefix_somes(o, pairs, providers, min_last_update, pairs.len() as int);
    assert(cs.take(pairs.len() as int) =~= cs);
}

/// Whether the signature at one position verifies; a shorthand for the
/// scan's second check.
pub open spec fn sig_ok_at(
    e: PriceEntry,
    pair: Seq<char>,
    sigs: Seq<Seq<u8>>,
    pks: Seq<Seq<u8>>,
    prices: Seq<u128>,
    round_id: u64,
    k: int,
) -> bool {
    crate::sig::sig_valid(
        crate::wire::message_chars(pair, round_id, prices[k]),
        sigs[k],
        pks[k],
    )
}

} // verus!
