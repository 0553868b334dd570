use vstd::prelude::*;
use vstd::relations::{sorted_by, total_ordering};
use vstd::seq_lib::group_to_multiset_ensures;

verus! {

/// The ascending order on unsigned magnitudes, fixed once so that every
/// contract speaks of the same ordering function.
pub open spec fn le_ord() -> spec_fn(u128, u128) -> bool {
    |x: u128, y: u128| x <= y
}

pub proof fn lemma_le_ord_total()
    ensures
        total_ordering(le_ord()),
{
}

/// The mathematical sum of a sequence of magnitudes.
pub open spec fn sum_of(s: Seq<u128>) -> int
    decreases s.len(),
{
    if s.len() == 0 {
        0
    } else {
        s.first() + sum_of(s.drop_first())
    }
}

pub proof fn lemma_sum_of_nonneg(s: Seq<u128>)
    ensures
        sum_of(s) >= 0,
    decreases s.len(),
{
    if s.len() > 0 {
        lemma_sum_of_nonneg(s.drop_first());
    }
}

/// Appending one value adds it to the sum.
pub proof fn lemma_sum_of_push(s: Seq<u128>, x: u128)
    ensures
        sum_of(s.push(x)) == sum_of(s) + x,
    decreases s.len(),
{
    if s.len() == 0 {
        assert(s.push(x).first() == x);
        assert(s.push(x).drop_first() =~= Seq::<u128>::empty());
        assert(sum_of(Seq::<u128>::empty()) == 0);
        assert(sum_of(s) == 0);
    } else {
        lemma_sum_of_push(s.drop_first(), x);
        assert(s.push(x).drop_first() =~= s.drop_first().push(x));
        assert(s.push(x).first() == s.first());
    }
}

/// A sum splits at any cut point.
pub proof fn lemma_sum_of_split(s: Seq<u128>, k: int)
    requires
        0 <= k <= s.len(),
    ensures
        sum_of(s) == sum_of(s.subrange(0, k)) + sum_of(s.subrange(k, s.len() as int)),
    decreases k,
{
    if k == 0 {
        assert(s.subrange(0, 0) =~= Seq::<u128>::empty());
        assert(s.subrange(0, s.len() as int) =~= s);
    } else {
        let rest = s.drop_first();
        lemma_sum_of_split(rest, k - 1);
        assert(s.subrange(0, k).drop_first() =~= rest.subrange(0, k - 1));
        assert(s.subrange(k, s.len() as int) =~= rest.subrange(k - 1, rest.len() as int));
        assert(s.subrange(0, k).first() == s.first());
    }
}

/// The floor mean of a non-empty sequence.
pub open spec fn mean_of(s: Seq<u128>) -> int
    recommends
        s.len() > 0,
{
    sum_of(s) / (s.len() as int)
}

/// The median of a sequence: the middle element of its ascending
/// rearrangement, or the floor mean of the two central elements when the
/// length is even.
pub open spec fn median_of(s: Seq<u128>) -> int
    recommends
        s.len() > 0,
{
    let t = s.sort_by(le_ord());
    let mid = s.len() as int / 2;
    if s.len() % 2 == 0 {
        (t[mid - 1] + t[mid]) / 2
    } else {
        t[mid] as int
    }
}

/// Comparing each element with its neighbour is enough: adjacent order
/// extends to every pair of positions.
pub proof fn lemma_adjacent_implies_sorted(s: Seq<u128>)
    requires
        forall|i: int| 0 <= i < s.len() - 1 ==> #[trigger] s[i] <= s[i + 1],
    ensures
        sorted_by(s, le_ord()),
{
    assert forall|i: int, j: int| 0 <= i < j < s.len() implies #[trigger] le_ord()(s[i], s[j]) by {
        lemma_le_chain(s, i, j);
    }
}

/// Transitive closure of the adjacent order between two positions.
proof fn lemma_le_chain(s: Seq<u128>, i: int, j: int)
    requires
        forall|k: int| 0 <= k < s.len() - 1 ==> #[trigger] s[k] <= s[k + 1],
        0 <= i <= j < s.len(),
    ensures
        s[i] <= s[j],
    decreases j - i,
{
    if i < j {
        lemma_le_chain(s, i, j - 1);
        assert(s[j - 1] <= s[j]);
    }
}

/// Two sorted sequences over the same multiset of values are equal: the
/// ascending rearrangement of a batch is canonical.
pub proof fn lemma_sorted_unique(a: Seq<u128>, b: Seq<u128>)
    requires
        sorted_by(a, le_ord()),
        sorted_by(b, le_ord()),
        a.to_multiset() == b.to_multiset(),
    ensures
        a == b,
    decreases a.len(),
{
    broadcast use group_to_multiset_ensures;

    if a.len() == 0 {
        assert(b.to_multiset().len() == 0);
        assert(b =~= a);
    } else {
        assert(a.contains(a[0]));
        assert(a.to_multiset().count(a[0]) > 0);
        assert(b.to_multiset().count(a[0]) > 0);
        assert(b.contains(a[0]));
        let j = choose|j: int| 0 <= j < b.len() && b[j] == a[0];
        if j > 0 {
            assert(le_ord()(b[0], b[j]));
        }
        assert(b.contains(b[0]));
        assert(b.to_multiset().count(b[0]) > 0);
        assert(a.to_multiset().count(b[0]) > 0);
        assert(a.contains(b[0]));
        let i = choose|i: int| 0 <= i < a.len() && a[i] == b[0];
        if i > 0 {
            assert(le_ord()(a[0], a[i]));
        }
        assert(a[0] == b[0]);
        let ar = a.drop_first();
        let br = b.drop_first();
        assert(a.remove(0) =~= ar);
        assert(b.remove(0) =~= br);
        assert(ar.to_multiset() =~= a.to_multiset().remove(a[0]));
        assert(br.to_multiset() =~= b.to_multiset().remove(b[0]));
        assert forall|p: int, q: int| 0 <= p < q < ar.len() implies #[trigger] le_ord()(
            ar[p],
            ar[q],
        ) by {
            assert(le_ord()(a[p + 1], a[q + 1]));
        }
        assert forall|p: int, q: int| 0 <= p < q < br.len() implies #[trigger] le_ord()(
            br[p],
            br[q],
        ) by {
            assert(le_ord()(b[p + 1], b[q + 1]));
        }
        lemma_sorted_unique(ar, br);
        assert(a.to_multiset().len() == b.to_multiset().len());
        assert(a.len() == b.len());
        assert forall|k: int| 0 <= k < a.len() implies a[k] == b[k] by {
            if k > 0 {
                assert(a[k] == ar[k - 1]);
                assert(b[k] == br[k - 1]);
            }
        }
        assert(a =~= b);
    }
}

/// Inserting a value into a sequence adds it to the sequence's multiset.
proof fn lemma_insert_to_multiset(s: Seq<u128>, p: int, x: u128)
    requires
        0 <= p <= s.len(),
    ensures
        s.insert(p, x).to_multiset() == s.to_multiset().insert(x),
{
    broadcast use group_to_multiset_ensures;

    let t = s.insert(p, x);
    s.insert_ensures(p, x);
    assert(t.remove(p) =~= s);
    assert(t.remove(p).to_multiset() =~= t.to_multiset().remove(t[p]));
    assert(t.to_multiset().count(x) > 0) by {
        assert(t[p] == x);
        assert(t.contains(x));
    }
    assert(t.to_multiset() =~= s.to_multiset().insert(x)) by {
        assert(s.to_multiset() =~= t.to_multiset().remove(x));
        assert(forall|y: u128|
            t.to_multiset().remove(x).insert(x).count(y) == t.to_multiset().count(y));
    }
}

/// Inserting a value at a position bounded below by the earlier elements
/// and above by the later ones keeps a sequence sorted.
proof fn lemma_insert_sorted(s: Seq<u128>, p: int, x: u128)
    requires
        sorted_by(s, le_ord()),
        0 <= p <= s.len(),
        forall|i: int| 0 <= i < p ==> s[i] <= x,
        forall|i: int| p <= i < s.len() ==> x <= s[i],
    ensures
        sorted_by(s.insert(p, x), le_ord()),
{
    let t = s.insert(p, x);
    s.insert_ensures(p, x);
    assert forall|i: int, j: int| 0 <= i < j < t.len() implies #[trigger] le_ord()(t[i], t[j]) by {
        let si = if i < p { s[i] } else { s[i - 1] };
        let sj = if j < p { s[j] } else { s[j - 1] };
        if i < p {
            assert(t[i] == s[i]);
        } else if i == p {
            assert(t[i] == x);
        } else {
            assert(t[i] == s[i - 1]);
        }
        if j < p {
            assert(t[j] == s[j]);
        } else if j == p {
            assert(t[j] == x);
        } else {
            assert(t[j] == s[j - 1]);
        }
        if i != p && j != p && ((i < p) == (j < p)) {
            assert(le_ord()(si, sj));
        } else if i != p && j != p {
            // i before the insertion point, j after it
            assert(s[i] <= x && x <= s[j - 1]);
        }
    }
}

/// Rearranges the values of a vector into ascending order.
pub fn sort_ascending(values: &mut Vec<u128>)
    ensures
        final(values)@ == old(values)@.sort_by(le_ord()),
        final(values)@.to_multiset() == old(values)@.to_multiset(),
        sorted_by(final(values)@, le_ord()),
        final(values)@.len() == old(values)@.len(),
{
    let ghost input = values@;
    let mut out: Vec<u128> = Vec::new();
    let n = values.len();
    proof {
        broadcast use group_to_multiset_ensures;

        assert(input.subrange(0, 0) =~= Seq::<u128>::empty());
    }
    for k in 0..n
        invariant
            n == input.len(),
            values@ == input,
            sorted_by(out@, le_ord()),
            out@.to_multiset() == input.subrange(0, k as int).to_multiset(),
            out@.len() == k,
    {
        let x = values[k];
        let mut p: usize = 0;
        while p < out.len() && out[p] < x
            invariant
                0 <= p <= out@.len(),
                forall|i: int| 0 <= i < p ==> out@[i] < x,
                sorted_by(out@, le_ord()),
            decreases out@.len() - p,
        {
            p += 1;
        }
        assert forall|i: int| p <= i < out@.len() implies x <= out@[i] by {
            assert(!(out@[p as int] < x));
            if i > p {
                assert(le_ord()(out@[p as int], out@[i]));
            }
        }
        let ghost pre = out@;
        proof {
            broadcast use group_to_multiset_ensures;

            lemma_insert_to_multiset(pre, p as int, x);
            lemma_insert_sorted(pre, p as int, x);
            assert(input.subrange(0, k as int).push(input[k as int]) =~= input.subrange(
                0,
                k as int + 1,
            ));
        }
        out.insert(p, x);
    }
    assert(input.subrange(0, n as int) =~= input);
    proof {
        input.lemma_sort_by_ensures(le_ord());
        lemma_sorted_unique(out@, input.sort_by(le_ord()));
    }
    *values = out;
}

/// Returns the floor mean of a non-empty collection of magnitudes.
pub fn mean(numbers: &Vec<u128>) -> (r: u128)
    requires
        numbers@.len() > 0,
        sum_of(numbers@) <= u128::MAX,
    ensures
        r == mean_of(numbers@),
{
    let n = numbers.len();
    let mut total: u128 = 0;
    assert(numbers@.subrange(0, 0) =~= Seq::<u128>::empty());
    for i in 0..n
        invariant
            n == numbers@.len(),
            total == sum_of(numbers@.subrange(0, i as int)),
            sum_of(numbers@) <= u128::MAX,
    {
        proof {
            lemma_sum_of_split(numbers@, i as int + 1);
            lemma_sum_of_nonneg(numbers@.subrange(i as int + 1, numbers@.len() as int));
            assert(numbers@.subrange(0, i as int).push(numbers@[i as int]) =~= numbers@.subrange(
                0,
                i as int + 1,
            ));
            lemma_sum_of_push(numbers@.subrange(0, i as int), numbers@[i as int]);
        }
        total = total + numbers[i];
    }
    assert(numbers@.subrange(0, n as int) =~= numbers@);
    total / (n as u128)
}

/// Returns the floor mean of two magnitudes without overflowing,
/// for `low <= high`.
pub fn mean_of_two(low: u128, high: u128) -> (r: u128)
    requires
        low <= high,
    ensures
        r == (low + high) / 2,
{
    let d = high - low;
    let r = low + d / 2;
    proof {
        assert(r == (low + high) / 2) by (nonlinear_arith)
            requires
                low <= high,
                d == high - low,
                r == low + d / 2,
        ;
    }
    r
}

/// Returns the median of a non-empty collection of magnitudes: the middle
/// value of the ascending rearrangement, or the floor mean of the two
/// central values when the count is even. The argument is left unchanged.
pub fn median(numbers: &Vec<u128>) -> (r: u128)
    requires
        numbers@.len() > 0,
    ensures
        r == median_of(numbers@),
{
    let n = numbers.len();
    let mut work: Vec<u128> = Vec::new();
    for i in 0..n
        invariant
            n == numbers@.len(),
            work@ =~= numbers@.subrange(0, i as int),
    {
        work.push(numbers[i]);
        assert(work@ =~= numbers@.subrange(0, i as int + 1));
    }
    assert(work@ =~= numbers@);
    sort_ascending(&mut work);
    let mid = n / 2;
    if n % 2 == 0 {
        let lo = work[mid - 1];
        let hi = work[mid];
        assert(le_ord()(work@[mid - 1], work@[mid as int]));
        mean_of_two(lo, hi)
    } else {
        work[mid]
    }
}

} // verus!
