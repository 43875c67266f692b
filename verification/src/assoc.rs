//! Lookup in a keyed sequence, the model behind the in-memory maps.
use vstd::prelude::*;

verus! {

/// The value stored under the first occurrence of a key, if any.
pub open spec fn lookup<V>(s: Seq<(Seq<char>, V)>, key: Seq<char>) -> Option<V>
    decreases s.len(),
{
    if s.len() == 0 {
        None
    } else if s[0].0 == key {
        Some(s[0].1)
    } else {
        lookup(s.drop_first(), key)
    }
}

/// When everything before index `i` misses the key and `s[i]` carries it,
/// the lookup finds `s[i]`.
pub proof fn lemma_lookup_at<V>(s: Seq<(Seq<char>, V)>, key: Seq<char>, i: int)
    requires
        0 <= i < s.len(),
        s[i].0 == key,
        forall|j: int| 0 <= j < i ==> (#[trigger] s[j]).0 != key,
    ensures
        lookup(s, key) == Some(s[i].1),
    decreases i,
{
    if i == 0 {
    } else {
        lemma_lookup_at(s.drop_first(), key, i - 1);
    }
}

/// When no entry carries the key, the lookup misses.
pub proof fn lemma_lookup_none<V>(s: Seq<(Seq<char>, V)>, key: Seq<char>)
    requires
        forall|j: int| 0 <= j < s.len() ==> (#[trigger] s[j]).0 != key,
    ensures
        lookup(s, key) is None,
    decreases s.len(),
{
    if s.len() > 0 {
        lemma_lookup_none(s.drop_first(), key);
    }
}

/// Replacing the entry at `i` changes only lookups of the two keys involved.
pub proof fn lemma_lookup_update_other<V>(
    s: Seq<(Seq<char>, V)>,
    i: int,
    e: (Seq<char>, V),
    key: Seq<char>,
)
    requires
        0 <= i < s.len(),
        s[i].0 != key,
        e.0 != key,
    ensures
        lookup(s.update(i, e), key) == lookup(s, key),
    decreases i,
{
    let su = s.update(i, e);
    if s.len() > 0 {
        if i == 0 {
            assert(su.drop_first() =~= s.drop_first());
        } else {
            if s[0].0 == key {
                assert(su[0] == s[0]);
            } else {
                assert(su.drop_first() =~= s.drop_first().update(i - 1, e));
                lemma_lookup_update_other(s.drop_first(), i - 1, e, key);
            }
        }
    }
}

/// Appending an entry leaves earlier keys' lookups alone and gives a fresh
/// key the appended value.
pub proof fn lemma_lookup_push<V>(s: Seq<(Seq<char>, V)>, e: (Seq<char>, V), key: Seq<char>)
    ensures
        lookup(s, key) is Some ==> lookup(s.push(e), key) == lookup(s, key),
        lookup(s, key) is None && e.0 == key ==> lookup(s.push(e), key) == Some(e.1),
        lookup(s, key) is None && e.0 != key ==> lookup(s.push(e), key) is None,
    decreases s.len(),
{
    if s.len() == 0 {
        assert(s.push(e)[0] == e);
        assert(s.push(e).drop_first() =~= Seq::empty());
        if e.0 == key {
            assert(lookup(s.push(e), key) == Some(e.1));
        } else {
            assert(lookup(s.push(e), key) == lookup(Seq::<(Seq<char>, V)>::empty(), key));
        }
    } else {
        assert(s.push(e).drop_first() =~= s.drop_first().push(e));
        assert(s.push(e)[0] == s[0]);
        lemma_lookup_push(s.drop_first(), e, key);
        if s[0].0 == key {
            assert(lookup(s, key) == Some(s[0].1));
            assert(lookup(s.push(e), key) == Some(s[0].1));
        } else {
            assert(lookup(s, key) == lookup(s.drop_first(), key));
            assert(lookup(s.push(e), key) == lookup(s.drop_first().push(e), key));
        }
    }
}

} // verus!
