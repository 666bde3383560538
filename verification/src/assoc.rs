//! The mathematical model of a small key/value mapping held as a list of
//! pairs: lookup by first matching key, and the facts the map types need
//! about how lookup behaves under update and append.

use vstd::prelude::*;

verus! {

/// The value the pair list binds to `key`: that of the first pair carrying
/// it, if any.
pub open spec fn assoc_get<K, V>(s: Seq<(K, V)>, key: K) -> Option<V>
    decreases s.len(),
{
    if s.len() == 0 {
        None
    } else if s[0].0 == key {
        Some(s[0].1)
    } else {
        assoc_get(s.drop_first(), key)
    }
}

/// Whether no key is bound twice. All the map types keep this, so the first
/// matching pair is the only one.
pub open spec fn unique_keys<K, V>(s: Seq<(K, V)>) -> bool {
    forall|i: int, j: int| 0 <= i < j < s.len() ==> (#[trigger] s[i]).0 != (#[trigger] s[j]).0
}

/// A key is bound exactly when some pair carries it.
pub proof fn lemma_assoc_none<K, V>(s: Seq<(K, V)>, key: K)
    ensures
        (assoc_get(s, key) is None) <==> (forall|i: int|
            0 <= i < s.len() ==> (#[trigger] s[i]).0 != key),
    decreases s.len(),
{
    if s.len() > 0 {
        let t = s.drop_first();
        lemma_assoc_none(t, key);
        if s[0].0 == key {
        } else {
            assert forall|i: int| 0 <= i < t.len() implies t[i] == s[i + 1] by {}
            if assoc_get(s, key) is None {
                assert forall|i: int| 0 <= i < s.len() implies (#[trigger] s[i]).0 != key by {
                    if i > 0 {
                        assert(t[i - 1] == s[i]);
                    }
                }
            } else {
                let i = choose|i: int| 0 <= i < t.len() && (#[trigger] t[i]).0 == key;
                assert(s[i + 1].0 == key);
            }
        }
    }
}

/// Lookup finds the first matching pair.
pub proof fn lemma_assoc_first<K, V>(s: Seq<(K, V)>, key: K, i: int)
    requires
        0 <= i < s.len(),
        s[i].0 == key,
        forall|j: int| 0 <= j < i ==> (#[trigger] s[j]).0 != key,
    ensures
        assoc_get(s, key) == Some(s[i].1),
    decreases s.len(),
{
    if i > 0 {
        let t = s.drop_first();
        assert forall|j: int| 0 <= j < i - 1 implies (#[trigger] t[j]).0 != key by {
            assert(t[j] == s[j + 1]);
        }
        assert(t[i - 1] == s[i]);
        lemma_assoc_first(t, key, i - 1);
    }
}

/// Rebinding the pair that carries `p.0` leaves every other key's binding
/// alone.
pub proof fn lemma_assoc_update<K, V>(s: Seq<(K, V)>, i: int, p: (K, V))
    requires
        unique_keys(s),
        0 <= i < s.len(),
        s[i].0 == p.0,
    ensures
        unique_keys(s.update(i, p)),
        assoc_get(s.update(i, p), p.0) == Some(p.1),
        forall|k: K| k != p.0 ==> assoc_get(s.update(i, p), k) == assoc_get(s, k),
    decreases s.len(),
{
    let u = s.update(i, p);
    assert forall|a: int, b: int| 0 <= a < b < u.len() implies (#[trigger] u[a]).0 != (
    #[trigger] u[b]).0 by {
        if a != i && b != i {
            assert(u[a] == s[a] && u[b] == s[b]);
        } else if a == i {
            assert(u[a].0 == s[a].0 && u[b] == s[b]);
        } else {
            assert(u[b].0 == s[b].0 && u[a] == s[a]);
        }
    }
    if i == 0 {
        assert(u[0] == p);
        assert forall|k: K| k != p.0 implies assoc_get(u, k) == assoc_get(s, k) by {
            assert(u.drop_first() =~= s.drop_first());
        }
    } else {
        let t = s.drop_first();
        assert forall|a: int, b: int| 0 <= a < b < t.len() implies (#[trigger] t[a]).0 != (
        #[trigger] t[b]).0 by {
            assert(t[a] == s[a + 1] && t[b] == s[b + 1]);
        }
        assert(t[i - 1] == s[i]);
        lemma_assoc_update(t, i - 1, p);
        assert(u.drop_first() =~= t.update(i - 1, p));
        assert(u[0] == s[0]);
        // The head's key differs from the rebound key.
        assert(s[0].0 != s[i].0);
        assert(assoc_get(u, p.0) == assoc_get(t.update(i - 1, p), p.0));
        assert forall|k: K| k != p.0 implies assoc_get(u, k) == assoc_get(s, k) by {
            if s[0].0 != k {
                assert(assoc_get(u, k) == assoc_get(t.update(i - 1, p), k));
                assert(assoc_get(s, k) == assoc_get(t, k));
            }
        }
    }
}

/// Binding a fresh key adds it and leaves every other key's binding alone.
pub proof fn lemma_assoc_push<K, V>(s: Seq<(K, V)>, p: (K, V))
    requires
        unique_keys(s),
        forall|i: int| 0 <= i < s.len() ==> (#[trigger] s[i]).0 != p.0,
    ensures
        unique_keys(s.push(p)),
        assoc_get(s.push(p), p.0) == Some(p.1),
        forall|k: K| k != p.0 ==> assoc_get(s.push(p), k) == assoc_get(s, k),
    decreases s.len(),
{
    let u = s.push(p);
    assert forall|a: int, b: int| 0 <= a < b < u.len() implies (#[trigger] u[a]).0 != (
    #[trigger] u[b]).0 by {
        if b == s.len() {
            assert(u[a] == s[a] && u[b] == p);
        } else {
            assert(u[a] == s[a] && u[b] == s[b]);
        }
    }
    if s.len() == 0 {
        assert(u[0] == p);
        assert forall|k: K| k != p.0 implies assoc_get(u, k) == assoc_get(s, k) by {
            assert(u.drop_first() =~= Seq::<(K, V)>::empty());
            assert(assoc_get(Seq::<(K, V)>::empty(), k) is None);
            assert(assoc_get(u, k) == assoc_get(u.drop_first(), k));
        }
    } else {
        let t = s.drop_first();
        assert forall|a: int, b: int| 0 <= a < b < t.len() implies (#[trigger] t[a]).0 != (
        #[trigger] t[b]).0 by {
            assert(t[a] == s[a + 1] && t[b] == s[b + 1]);
        }
        assert forall|i: int| 0 <= i < t.len() implies (#[trigger] t[i]).0 != p.0 by {
            assert(t[i] == s[i + 1]);
        }
        lemma_assoc_push(t, p);
        assert(u[0] == s[0]);
        assert(u.drop_first() =~= t.push(p));
        assert(s[0].0 != p.0);
        assert(assoc_get(u, p.0) == assoc_get(t.push(p), p.0));
        assert forall|k: K| k != p.0 implies assoc_get(u, k) == assoc_get(s, k) by {
            if s[0].0 != k {
                assert(assoc_get(u, k) == assoc_get(t.push(p), k));
                assert(assoc_get(s, k) == assoc_get(t, k));
            }
        }
    }
}

} // verus!
