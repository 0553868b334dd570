use vstd::prelude::*;

verus! {

/// The first entry of `s` whose key under the projection `key` is `k`.
/// This is the mathematical model of every symbol-keyed store in the
/// library: a lookup finds the first (and, under the stores' uniqueness
/// invariants, only) entry with the requested key.
pub open spec fn lookup_by<T>(s: Seq<T>, key: spec_fn(T) -> Seq<char>, k: Seq<char>) -> Option<T>
    decreases s.len(),
{
    if s.len() == 0 {
        None
    } else if key(s.first()) == k {
        Some(s.first())
    } else {
        lookup_by(s.drop_first(), key, k)
    }
}

/// A scan that stops at the first matching index finds the lookup result.
pub proof fn lemma_lookup_found<T>(s: Seq<T>, key: spec_fn(T) -> Seq<char>, i: int)
    requires
        0 <= i < s.len(),
        forall|j: int| 0 <= j < i ==> key(s[j]) != key(s[i]),
    ensures
        lookup_by(s, key, key(s[i])) == Some(s[i]),
    decreases s.len(),
{
    if key(s.first()) == key(s[i]) {
        assert(i == 0);
    } else {
        let r = s.drop_first();
        lemma_lookup_found(r, key, i - 1);
        assert(r[i - 1] == s[i]);
    }
}

/// A scan that matches nowhere proves the key absent.
pub proof fn lemma_lookup_none<T>(s: Seq<T>, key: spec_fn(T) -> Seq<char>, k: Seq<char>)
    requires
        forall|j: int| 0 <= j < s.len() ==> key(s[j]) != k,
    ensures
        lookup_by(s, key, k) == None::<T>,
    decreases s.len(),
{
    if s.len() > 0 {
        lemma_lookup_none(s.drop_first(), key, k);
    }
}

/// Appending an entry leaves every present key's lookup unchanged and
/// makes the new entry found under its own key if that key was absent.
pub proof fn lemma_lookup_push<T>(s: Seq<T>, key: spec_fn(T) -> Seq<char>, k: Seq<char>, t: T)
    ensures
        lookup_by(s.push(t), key, k) == (if lookup_by(s, key, k).is_some() {
            lookup_by(s, key, k)
        } else if key(t) == k {
            Some(t)
        } else {
            None
        }),
    decreases s.len(),
{
    if s.len() == 0 {
        assert(lookup_by(s, key, k) == None::<T>);
        assert(s.push(t).first() == t);
        assert(s.push(t).drop_first() =~= Seq::<T>::empty());
        assert(lookup_by(Seq::<T>::empty(), key, k) == None::<T>);
    } else {
        assert(s.push(t).first() == s.first());
        assert(s.push(t).drop_first() =~= s.drop_first().push(t));
        lemma_lookup_push(s.drop_first(), key, k, t);
        if key(s.first()) == k {
            assert(lookup_by(s.push(t), key, k) == Some(s.first()));
            assert(lookup_by(s, key, k) == Some(s.first()));
        } else {
            assert(lookup_by(s.push(t), key, k) == lookup_by(s.drop_first().push(t), key, k));
            assert(lookup_by(s, key, k) == lookup_by(s.drop_first(), key, k));
        }
    }
}

/// Replacing the first entry that carries a key with another entry of the
/// same key changes that key's lookup to the new entry and no other.
pub proof fn lemma_lookup_update<T>(s: Seq<T>, key: spec_fn(T) -> Seq<char>, i: int, t: T)
    requires
        0 <= i < s.len(),
        key(t) == key(s[i]),
        forall|j: int| 0 <= j < i ==> key(s[j]) != key(s[i]),
    ensures
        lookup_by(s.update(i, t), key, key(t)) == Some(t),
        forall|k: Seq<char>|
            k != key(t) ==> lookup_by(s.update(i, t), key, k) == lookup_by(s, key, k),
    decreases s.len(),
{
    let u = s.update(i, t);
    if i == 0 {
        assert(u.first() == t);
        assert(u.drop_first() =~= s.drop_first());
        assert forall|k: Seq<char>| k != key(t) implies lookup_by(u, key, k) == lookup_by(
            s,
            key,
            k,
        ) by {
            assert(key(s.first()) == key(t));
        }
    } else {
        assert(u.len() == s.len());
        assert(u[0] == s[0]);
        assert(u.first() == s.first());
        assert(u.drop_first() =~= s.drop_first().update(i - 1, t));
        assert(s.drop_first()[i - 1] == s[i]);
        lemma_lookup_update(s.drop_first(), key, i - 1, t);
        assert(key(s.first()) != key(t));
        assert(lookup_by(u, key, key(t)) == lookup_by(s.drop_first().update(i - 1, t), key, key(t)));
        assert forall|k: Seq<char>| k != key(t) implies lookup_by(u, key, k) == lookup_by(
            s,
            key,
            k,
        ) by {
            if key(s.first()) == k {
                assert(lookup_by(u, key, k) == Some(s.first()));
                assert(lookup_by(s, key, k) == Some(s.first()));
            } else {
                assert(lookup_by(u, key, k) == lookup_by(s.drop_first().update(i - 1, t), key, k));
                assert(lookup_by(s, key, k) == lookup_by(s.drop_first(), key, k));
            }
        }
    }
}

} // verus!
