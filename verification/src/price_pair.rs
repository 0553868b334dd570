use vstd::prelude::*;

verus! {

/// Minimum number of distinct, valid submissions a round needs by default.
/// The administrator can change a pair's own floor with `set_min_signers`;
/// a floor of zero marks a pair with no signature requirement, which admits
/// the single-signer `push_data` path.
pub const DEFAULT_MIN_SIGNERS: u64 = 2;

/// One named price feed: the authoritative state a pair carries between
/// rounds. The symbol is the key under which the store finds the entry.
///
/// The signer list may hold a key more than once; a submission batch still
/// counts each signer at most once, because duplicate signers within a
/// batch are rejected.
pub struct PriceEntry {
    /// The pair symbol, e.g. "ETH/USD".
    pub pair: String,
    /// Last committed consensus value.
    pub price: u128,
    /// Fixed-point scale factor; informational only, never used in arithmetic.
    pub decimals: u16,
    /// Host-supplied timestamp of the last committed round.
    pub last_update: u64,
    /// Public keys (raw ed25519 key bytes) authorized to submit for this pair.
    pub signers: Vec<Vec<u8>>,
    /// Strictly increasing round counter; starts at 1 on creation and is
    /// incremented exactly once per successful commit.
    pub latest_round_id: u64,
    /// Minimum number of distinct valid submissions required to commit.
    pub min_signers: u64,
}

impl PriceEntry {
    /// The signer set as a sequence of byte strings.
    pub open spec fn signers_view(self) -> Seq<Seq<u8>> {
        self.signers@.map_values(|k: Vec<u8>| k@)
    }

    /// Whether `pk` is authorized to submit for this pair.
    pub open spec fn is_signer(self, pk: Seq<u8>) -> bool {
        self.signers_view().contains(pk)
    }

    /// A fresh entry with no signers, at round 1 and the default signer floor.
    pub fn new(pair: String, price: u128, decimals: u16, last_update: u64) -> (r: Self)
        ensures
            r == (PriceEntry {
                pair,
                price,
                decimals,
                last_update,
                signers: r.signers,
                latest_round_id: 1u64,
                min_signers: DEFAULT_MIN_SIGNERS,
            }),
            r.signers@ == Seq::<Vec<u8>>::empty(),
    {
        PriceEntry {
            pair,
            price,
            decimals,
            last_update,
            signers: Vec::new(),
            latest_round_id: 1,
            min_signers: DEFAULT_MIN_SIGNERS,
        }
    }
}

/// A list of keys as the sequence of their byte strings.
pub open spec fn keys_view(v: Seq<Vec<u8>>) -> Seq<Seq<u8>> {
    v.map_values(|k: Vec<u8>| k@)
}

/// The sequence with the first occurrence of `k` taken out (unchanged if
/// `k` does not occur).
pub open spec fn remove_first_occurrence(s: Seq<Seq<u8>>, k: Seq<u8>) -> Seq<Seq<u8>>
    decreases s.len(),
{
    if s.len() == 0 {
        s
    } else if s.first() == k {
        s.drop_first()
    } else {
        seq![s.first()] + remove_first_occurrence(s.drop_first(), k)
    }
}

/// Removes each key of `ks` in turn, first occurrence first; `None` as
/// soon as a key is not present — the whole batch then fails.
pub open spec fn remove_all_keys(s: Seq<Seq<u8>>, ks: Seq<Seq<u8>>) -> Option<Seq<Seq<u8>>>
    decreases ks.len(),
{
    if ks.len() == 0 {
        Some(s)
    } else if !s.contains(ks.first()) {
        None
    } else {
        remove_all_keys(remove_first_occurrence(s, ks.first()), ks.drop_first())
    }
}

/// Taking out the first occurrence is taking out the element at the first
/// matching index.
pub proof fn lemma_remove_first_occurrence(s: Seq<Seq<u8>>, k: Seq<u8>, j: int)
    requires
        0 <= j < s.len(),
        s[j] == k,
        forall|l: int| 0 <= l < j ==> s[l] != k,
    ensures
        remove_first_occurrence(s, k) == s.remove(j),
    decreases s.len(),
{
    if s.first() == k {
        assert(j == 0);
        assert(s.remove(0) =~= s.drop_first());
    } else {
        let r = s.drop_first();
        assert(r[j - 1] == s[j]);
        lemma_remove_first_occurrence(r, k, j - 1);
        assert(seq![s.first()] + r.remove(j - 1) =~= s.remove(j));
    }
}

/// Whether two byte strings hold the same bytes.
pub fn bytes_equal(a: &Vec<u8>, b: &Vec<u8>) -> (r: bool)
    ensures
        r == (a@ == b@),
{
    if a.len() != b.len() {
        return false;
    }
    let n = a.len();
    for i in 0..n
        invariant
            n == a@.len(),
            a@.len() == b@.len(),
            forall|j: int| 0 <= j < i ==> a@[j] == b@[j],
    {
        if a[i] != b[i] {
            return false;
        }
    }
    proof {
        assert(a@ =~= b@);
    }
    true
}

/// An exact copy of a byte string.
pub fn clone_bytes(v: &Vec<u8>) -> (r: Vec<u8>)
    ensures
        r@ == v@,
{
    let mut r: Vec<u8> = Vec::new();
    let n = v.len();
    for i in 0..n
        invariant
            n == v@.len(),
            r@ =~= v@.subrange(0, i as int),
    {
        r.push(v[i]);
        assert(r@ =~= v@.subrange(0, i as int + 1));
    }
    assert(r@ =~= v@);
    r
}

/// An exact copy of a list of byte strings, compared by contents.
pub fn clone_key_list(keys: &Vec<Vec<u8>>) -> (r: Vec<Vec<u8>>)
    ensures
        r@.len() == keys@.len(),
        forall|i: int| 0 <= i < keys@.len() ==> r@[i]@ == keys@[i]@,
        r@.map_values(|k: Vec<u8>| k@) == keys@.map_values(|k: Vec<u8>| k@),
{
    let mut r: Vec<Vec<u8>> = Vec::new();
    let n = keys.len();
    for i in 0..n
        invariant
            n == keys@.len(),
            r@.len() == i,
            forall|j: int| 0 <= j < i ==> r@[j]@ == keys@[j]@,
    {
        r.push(clone_bytes(&keys[i]));
    }
    assert(r@.map_values(|k: Vec<u8>| k@) =~= keys@.map_values(|k: Vec<u8>| k@));
    r
}

/// Whether `pk`'s bytes occur in `keys`.
pub fn contains_key(keys: &Vec<Vec<u8>>, pk: &Vec<u8>) -> (r: bool)
    ensures
        r == keys@.map_values(|k: Vec<u8>| k@).contains(pk@),
{
    let n = keys.len();
    for i in 0..n
        invariant
            n == keys@.len(),
            forall|j: int| 0 <= j < i ==> keys@[j]@ != pk@,
    {
        if bytes_equal(&keys[i], pk) {
            assert(keys@.map_values(|k: Vec<u8>| k@)[i as int] == pk@);
            return true;
        }
    }
    proof {
        let m = keys@.map_values(|k: Vec<u8>| k@);
        if m.contains(pk@) {
            let j = choose|j: int| 0 <= j < m.len() && m[j] == pk@;
            assert(keys@[j]@ == pk@);
        }
    }
    false
}

/// The first index at which `pk`'s bytes occur in `keys`, if any.
pub fn find_key_index(keys: &Vec<Vec<u8>>, pk: &Vec<u8>) -> (r: Option<usize>)
    ensures
        match r {
            Some(i) => {
                &&& 0 <= i < keys@.len()
                &&& keys@[i as int]@ == pk@
                &&& forall|j: int| 0 <= j < i ==> keys@[j]@ != pk@
            },
            None => !keys@.map_values(|k: Vec<u8>| k@).contains(pk@),
        },
{
    let n = keys.len();
    for i in 0..n
        invariant
            n == keys@.len(),
            forall|j: int| 0 <= j < i ==> keys@[j]@ != pk@,
    {
        if bytes_equal(&keys[i], pk) {
            return Some(i);
        }
    }
    proof {
        let m = keys@.map_values(|k: Vec<u8>| k@);
        if m.contains(pk@) {
            let j = choose|j: int| 0 <= j < m.len() && m[j] == pk@;
            assert(keys@[j]@ == pk@);
        }
    }
    None
}

} // verus!
