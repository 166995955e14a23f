//! Text-keyed entries kept in strictly increasing key order, with the
//! replace-on-equal-key behaviour of a map.
use vstd::prelude::*;
use crate::text::{
    lemma_text_lt_irreflexive, lemma_text_lt_total, lemma_text_lt_transitive, text_less, text_lt,
};

verus! {

/// Keys strictly increase along `s`.
pub open spec fn keys_sorted(s: Seq<(String, String)>) -> bool {
    forall|i: int, j: int| 0 <= i < j < s.len() ==> text_lt(#[trigger] s[i].0@, #[trigger] s[j].0@)
}

/// `s` lists exactly the entries of `m`.
pub open spec fn lists_map(s: Seq<(String, String)>, m: Map<Seq<char>, Seq<char>>) -> bool {
    &&& forall|i: int|
        0 <= i < s.len() ==> m.contains_key(#[trigger] s[i].0@) && m[s[i].0@] == s[i].1@
    &&& forall|k: Seq<char>|
        m.contains_key(k) ==> exists|i: int| 0 <= i < s.len() && #[trigger] s[i].0@ == k
}

proof fn lemma_lt_ne(a: Seq<char>, b: Seq<char>)
    requires
        text_lt(a, b),
    ensures
        a != b,
{
    lemma_text_lt_irreflexive(a);
}

/// Whether some entry of `v` has key `key`.
pub fn has_key(v: &Vec<(String, String)>, key: &String) -> (r: bool)
    ensures
        r == exists|i: int| 0 <= i < v@.len() && #[trigger] v@[i].0@ == key@,
{
    let mut i: usize = 0;
    while i < v.len()
        invariant
            i <= v@.len(),
            forall|j: int| 0 <= j < i ==> #[trigger] v@[j].0@ != key@,
        decreases v@.len() - i,
    {
        if v[i].0 == *key {
            return true;
        }
        i = i + 1;
    }
    false
}

/// Adds `key -> value` to the sorted entries `v`, replacing the value of an
/// equal key.
pub fn insert_sorted(v: &mut Vec<(String, String)>, key: String, value: String)
    requires
        keys_sorted(old(v)@),
    ensures
        keys_sorted(final(v)@),
        forall|m: Map<Seq<char>, Seq<char>>|
            lists_map(old(v)@, m) ==> lists_map(final(v)@, #[trigger] m.insert(key@, value@)),
        forall|i: int|
            0 <= i < final(v)@.len() ==> (#[trigger] final(v)@[i]).1@ == value@ || exists|j: int|
                0 <= j < old(v)@.len() && old(v)@[j] == final(v)@[i],
{
    let ghost s = v@;
    let mut p: usize = 0;
    while p < v.len() && text_less(v[p].0.as_str(), key.as_str())
        invariant
            v@ == s,
            p <= s.len(),
            forall|j: int| 0 <= j < p ==> text_lt(#[trigger] s[j].0@, key@),
        decreases s.len() - p,
    {
        p = p + 1;
    }
    let ghost k = key@;
    let ghost val = value@;
    if p < v.len() && v[p].0 == key {
        v.set(p, (key, value));
        let ghost t = v@;
        assert forall|i: int| 0 <= i < t.len() && i != p implies t[i] == s[i] by {}
        assert forall|i: int| 0 <= i < t.len() && i != p implies #[trigger] t[i].0@ != k by {
            if i < p {
                lemma_lt_ne(s[i].0@, s[p as int].0@);
            } else {
                lemma_lt_ne(s[p as int].0@, s[i].0@);
            }
        }
        assert forall|i: int, j: int| 0 <= i < j < t.len() implies text_lt(
            #[trigger] t[i].0@,
            #[trigger] t[j].0@,
        ) by {
            assert(text_lt(s[i].0@, s[j].0@));
        }
        assert forall|m: Map<Seq<char>, Seq<char>>|
            lists_map(s, m) implies lists_map(t, #[trigger] m.insert(k, val)) by {
            assert forall|kk: Seq<char>| m.insert(k, val).contains_key(kk) implies exists|i: int|
                0 <= i < t.len() && #[trigger] t[i].0@ == kk by {
                if kk == k {
                    assert(t[p as int].0@ == kk);
                } else {
                    let i = choose|i: int| 0 <= i < s.len() && #[trigger] s[i].0@ == kk;
                    assert(t[i].0@ == kk);
                }
            }
            assert forall|i: int| 0 <= i < t.len() implies m.insert(k, val).contains_key(
                #[trigger] t[i].0@,
            ) && m.insert(k, val)[t[i].0@] == t[i].1@ by {
                if i != p {
                    assert(t[i] == s[i]);
                }
            }
        }
    } else {
        proof {
            if p < s.len() {
                lemma_text_lt_total(s[p as int].0@, k);
            }
        }
        v.insert(p, (key, value));
        let ghost t = v@;
        assert forall|i: int| 0 <= i < t.len() && i != p implies #[trigger] t[i] == s[if i < p {
            i
        } else {
            i - 1
        }] by {}
        assert forall|j: int| p < j < t.len() implies text_lt(k, #[trigger] t[j].0@) by {
            assert(t[j] == s[j - 1]);
            if j - 1 > p {
                assert(text_lt(s[p as int].0@, s[j - 1].0@));
                lemma_text_lt_transitive(k, s[p as int].0@, s[j - 1].0@);
            }
        }
        assert forall|i: int| 0 <= i < t.len() && i != p implies #[trigger] t[i].0@ != k by {
            if i < p {
                lemma_lt_ne(t[i].0@, k);
            } else {
                lemma_lt_ne(k, t[i].0@);
            }
        }
        assert forall|i: int, j: int| 0 <= i < j < t.len() implies text_lt(
            #[trigger] t[i].0@,
            #[trigger] t[j].0@,
        ) by {
            if j < p {
                assert(text_lt(s[i].0@, s[j].0@));
            } else if j == p {
            } else if i > p {
                assert(text_lt(s[i - 1].0@, s[j - 1].0@));
            } else if i < p {
                assert(text_lt(s[i].0@, s[j - 1].0@));
            }
        }
        assert forall|m: Map<Seq<char>, Seq<char>>|
            lists_map(s, m) implies lists_map(t, #[trigger] m.insert(k, val)) by {
            assert forall|kk: Seq<char>| m.insert(k, val).contains_key(kk) implies exists|i: int|
                0 <= i < t.len() && #[trigger] t[i].0@ == kk by {
                if kk == k {
                    assert(t[p as int].0@ == kk);
                } else {
                    let i = choose|i: int| 0 <= i < s.len() && #[trigger] s[i].0@ == kk;
                    if i < p {
                        assert(t[i].0@ == kk);
                    } else {
                        assert(t[i + 1].0@ == kk);
                    }
                }
            }
            assert forall|i: int| 0 <= i < t.len() implies m.insert(k, val).contains_key(
                #[trigger] t[i].0@,
            ) && m.insert(k, val)[t[i].0@] == t[i].1@ by {
                if i < p {
                    assert(t[i] == s[i]);
                } else if i > p {
                    assert(t[i] == s[i - 1]);
                }
            }
        }
    }
}

} // verus!
