//! Tables keyed by strings, held as vectors of `(key, value)` pairs in
//! strictly increasing key order (the shape of a `BTreeMap`), with the
//! map each one denotes.
use vstd::prelude::*;
use crate::order::{str_lt, lemma_lt_laws, string_lt, string_eq};

verus! {

/// Keys strictly increasing.
pub open spec fn keys_inc<V>(s: Seq<(Seq<char>, V)>) -> bool {
    forall|i: int, j: int| 0 <= i < j < s.len() ==> str_lt(#[trigger] s[i].0, #[trigger] s[j].0)
}

/// `k` is the key of some pair.
pub open spec fn has_key<V>(s: Seq<(Seq<char>, V)>, k: Seq<char>) -> bool {
    exists|i: int| 0 <= i < s.len() && #[trigger] s[i].0 == k
}

/// The map a sequence of pairs denotes (a later pair wins).
pub open spec fn tmap<V>(s: Seq<(Seq<char>, V)>) -> Map<Seq<char>, V>
    decreases s.len(),
{
    if s.len() == 0 {
        Map::empty()
    } else {
        tmap(s.drop_last()).insert(s.last().0, s.last().1)
    }
}

/// The keys of a vector of pairs are strictly increasing.
pub open spec fn sorted_keys<X>(v: Seq<(String, X)>) -> bool {
    forall|i: int, j: int| 0 <= i < j < v.len() ==> str_lt(#[trigger] v[i].0@, #[trigger] v[j].0@)
}

/// `k` is the key of some pair of the vector.
pub open spec fn key_in<X>(v: Seq<(String, X)>, k: Seq<char>) -> bool {
    exists|i: int| 0 <= i < v.len() && #[trigger] v[i].0@ == k
}

/// Lookup in a table with distinct keys.
pub proof fn lemma_tmap<V>(s: Seq<(Seq<char>, V)>)
    requires
        keys_inc(s),
    ensures
        forall|k: Seq<char>| #[trigger] tmap(s).contains_key(k) <==> has_key(s, k),
        forall|i: int| 0 <= i < s.len() ==> #[trigger] tmap(s)[s[i].0] == s[i].1,
        tmap(s).dom().finite(),
    decreases s.len(),
{
    lemma_lt_laws();
    if s.len() > 0 {
        let t = s.drop_last();
        lemma_tmap(t);
        let n = s.len() - 1;
        assert forall|k: Seq<char>| #[trigger] tmap(s).contains_key(k) <==> has_key(s, k) by {
            if has_key(s, k) {
                let i = choose|i: int| 0 <= i < s.len() && #[trigger] s[i].0 == k;
                if i < n {
                    assert(t[i].0 == k);
                }
            }
            if tmap(s).contains_key(k) && k != s.last().0 {
                assert(has_key(t, k));
                let i = choose|i: int| 0 <= i < t.len() && #[trigger] t[i].0 == k;
                assert(s[i].0 == k);
            }
            if k == s.last().0 {
                assert(s[n].0 == k);
            }
        }
        assert forall|i: int| 0 <= i < s.len() implies #[trigger] tmap(s)[s[i].0] == s[i].1 by {
            if i < n {
                assert(str_lt(s[i].0, s[n].0));
                assert(t[i] == s[i]);
            }
        }
    }
}

/// Two tables in key order that denote the same map are the same table.
pub proof fn lemma_tmap_unique<V>(a: Seq<(Seq<char>, V)>, b: Seq<(Seq<char>, V)>)
    requires
        keys_inc(a),
        keys_inc(b),
        tmap(a) == tmap(b),
    ensures
        a == b,
    decreases a.len(),
{
    lemma_lt_laws();
    lemma_tmap(a);
    lemma_tmap(b);
    if a.len() == 0 {
        if b.len() > 0 {
            assert(has_key(b, b[0].0));
            assert(tmap(b).contains_key(b[0].0));
        }
        assert(a =~= b);
    } else if b.len() == 0 {
        assert(has_key(a, a[0].0));
        assert(tmap(a).contains_key(a[0].0));
    } else {
        assert(has_key(a, a[0].0));
        assert(has_key(b, b[0].0));
        assert(tmap(b).contains_key(a[0].0));
        assert(tmap(a).contains_key(b[0].0));
        let ia = choose|i: int| 0 <= i < a.len() && #[trigger] a[i].0 == b[0].0;
        let ib = choose|i: int| 0 <= i < b.len() && #[trigger] b[i].0 == a[0].0;
        if a[0].0 != b[0].0 {
            assert(ia > 0 && ib > 0);
            assert(str_lt(a[0].0, a[ia].0));
            assert(str_lt(b[0].0, b[ib].0));
        }
        assert(a[0].1 == tmap(a)[a[0].0]);
        assert(b[0].1 == tmap(b)[b[0].0]);
        assert(a[0] == b[0]);
        let a1 = a.drop_first();
        let b1 = b.drop_first();
        assert(keys_inc(a1));
        assert(keys_inc(b1));
        lemma_tmap(a1);
        lemma_tmap(b1);
        assert(tmap(a1) =~= tmap(b1)) by {
            assert forall|k: Seq<char>| #[trigger] tmap(a1).contains_key(k) implies tmap(
                b1,
            ).contains_key(k) && tmap(a1)[k] == tmap(b1)[k] by {
                let i = choose|i: int| 0 <= i < a1.len() && #[trigger] a1[i].0 == k;
                assert(a[i + 1].0 == k);
                assert(has_key(a, k));
                assert(tmap(b).contains_key(k));
                assert(has_key(b, k));
                let j = choose|j: int| 0 <= j < b.len() && #[trigger] b[j].0 == k;
                if j == 0 {
                    assert(str_lt(a[0].0, a[i + 1].0));
                }
                assert(b1[j - 1].0 == k);
                assert(tmap(a)[k] == a[i + 1].1);
                assert(tmap(b)[k] == b[j].1);
            }
            assert forall|k: Seq<char>| #[trigger] tmap(b1).contains_key(k) implies tmap(
                a1,
            ).contains_key(k) by {
                let i = choose|i: int| 0 <= i < b1.len() && #[trigger] b1[i].0 == k;
                assert(b[i + 1].0 == k);
                assert(has_key(b, k));
                assert(tmap(a).contains_key(k));
                assert(has_key(a, k));
                let j = choose|j: int| 0 <= j < a.len() && #[trigger] a[j].0 == k;
                if j == 0 {
                    assert(str_lt(b[0].0, b[i + 1].0));
                }
                assert(a1[j - 1].0 == k);
            }
        }
        lemma_tmap_unique(a1, b1);
        assert(a =~= seq![a[0]] + a1);
        assert(b =~= seq![b[0]] + b1);
    }
}

/// Inserting a pair at its place in key order.
pub proof fn lemma_tmap_insert<V>(s: Seq<(Seq<char>, V)>, p: int, k: Seq<char>, x: V)
    requires
        keys_inc(s),
        0 <= p <= s.len(),
        forall|i: int| 0 <= i < p ==> str_lt(#[trigger] s[i].0, k),
        forall|i: int| p <= i < s.len() ==> str_lt(k, #[trigger] s[i].0),
    ensures
        keys_inc(s.insert(p, (k, x))),
        tmap(s.insert(p, (k, x))) == tmap(s).insert(k, x),
{
    lemma_lt_laws();
    let t = s.insert(p, (k, x));
    assert forall|i: int, j: int| 0 <= i < j < t.len() implies str_lt(
        #[trigger] t[i].0,
        #[trigger] t[j].0,
    ) by {
        if j < p {
            assert(t[i] == s[i] && t[j] == s[j]);
        } else if j == p {
            assert(t[i] == s[i]);
        } else if i > p {
            assert(t[i] == s[i - 1] && t[j] == s[j - 1]);
        } else if i == p {
            assert(t[j] == s[j - 1]);
        } else {
            assert(t[i] == s[i] && t[j] == s[j - 1]);
        }
    }
    lemma_tmap(s);
    lemma_tmap(t);
    assert(tmap(t) =~= tmap(s).insert(k, x)) by {
        assert forall|key: Seq<char>| #[trigger] tmap(t).contains_key(key) <==> tmap(s).insert(
            k,
            x,
        ).contains_key(key) by {
            if has_key(t, key) {
                let i = choose|i: int| 0 <= i < t.len() && #[trigger] t[i].0 == key;
                if i < p {
                    assert(s[i].0 == key);
                } else if i > p {
                    assert(s[i - 1].0 == key);
                }
            }
            if has_key(s, key) {
                let i = choose|i: int| 0 <= i < s.len() && #[trigger] s[i].0 == key;
                if i < p {
                    assert(t[i].0 == key);
                } else {
                    assert(t[i + 1].0 == key);
                }
            }
            if key == k {
                assert(t[p].0 == key);
            }
        }
        assert forall|key: Seq<char>| #[trigger] tmap(t).contains_key(key) implies tmap(t)[key]
            == tmap(s).insert(k, x)[key] by {
            let i = choose|i: int| 0 <= i < t.len() && #[trigger] t[i].0 == key;
            if i < p {
                assert(t[i] == s[i]);
            } else if i > p {
                assert(t[i] == s[i - 1]);
            }
        }
    }
}

/// Replacing the value of the pair at index `p`.
pub proof fn lemma_tmap_update<V>(s: Seq<(Seq<char>, V)>, p: int, x: V)
    requires
        keys_inc(s),
        0 <= p < s.len(),
    ensures
        keys_inc(s.update(p, (s[p].0, x))),
        tmap(s.update(p, (s[p].0, x))) == tmap(s).insert(s[p].0, x),
{
    lemma_lt_laws();
    let t = s.update(p, (s[p].0, x));
    assert forall|i: int, j: int| 0 <= i < j < t.len() implies str_lt(
        #[trigger] t[i].0,
        #[trigger] t[j].0,
    ) by {
        assert(t[i].0 == s[i].0 && t[j].0 == s[j].0);
    }
    lemma_tmap(s);
    lemma_tmap(t);
    assert(tmap(t) =~= tmap(s).insert(s[p].0, x)) by {
        assert forall|key: Seq<char>| #[trigger] tmap(t).contains_key(key) <==> tmap(s).insert(
            s[p].0,
            x,
        ).contains_key(key) by {
            if has_key(t, key) {
                let i = choose|i: int| 0 <= i < t.len() && #[trigger] t[i].0 == key;
                assert(s[i].0 == key);
            }
            if has_key(s, key) {
                let i = choose|i: int| 0 <= i < s.len() && #[trigger] s[i].0 == key;
                assert(t[i].0 == key);
            }
            if key == s[p].0 {
                assert(t[p].0 == key);
            }
        }
        assert forall|key: Seq<char>| #[trigger] tmap(t).contains_key(key) implies tmap(t)[key]
            == tmap(s).insert(s[p].0, x)[key] by {
            let i = choose|i: int| 0 <= i < t.len() && #[trigger] t[i].0 == key;
            if i != p {
                assert(t[i] == s[i]);
            }
        }
    }
}

/// Removing the pair at index `p`.
pub proof fn lemma_tmap_remove<V>(s: Seq<(Seq<char>, V)>, p: int)
    requires
        keys_inc(s),
        0 <= p < s.len(),
    ensures
        keys_inc(s.remove(p)),
        tmap(s.remove(p)) == tmap(s).remove(s[p].0),
{
    lemma_lt_laws();
    let t = s.remove(p);
    assert forall|i: int, j: int| 0 <= i < j < t.len() implies str_lt(
        #[trigger] t[i].0,
        #[trigger] t[j].0,
    ) by {
        if j < p {
            assert(t[i] == s[i] && t[j] == s[j]);
        } else if i >= p {
            assert(t[i] == s[i + 1] && t[j] == s[j + 1]);
        } else {
            assert(t[i] == s[i] && t[j] == s[j + 1]);
        }
    }
    lemma_tmap(s);
    lemma_tmap(t);
    assert(tmap(t) =~= tmap(s).remove(s[p].0)) by {
        assert forall|key: Seq<char>| #[trigger] tmap(t).contains_key(key) <==> tmap(s).remove(
            s[p].0,
        ).contains_key(key) by {
            if has_key(t, key) {
                let i = choose|i: int| 0 <= i < t.len() && #[trigger] t[i].0 == key;
                if i < p {
                    assert(s[i].0 == key);
                    assert(str_lt(s[i].0, s[p].0));
                } else {
                    assert(s[i + 1].0 == key);
                    assert(str_lt(s[p].0, s[i + 1].0));
                }
            }
            if has_key(s, key) && key != s[p].0 {
                let i = choose|i: int| 0 <= i < s.len() && #[trigger] s[i].0 == key;
                if i < p {
                    assert(t[i].0 == key);
                } else {
                    assert(t[i - 1].0 == key);
                }
            }
        }
        assert forall|key: Seq<char>| #[trigger] tmap(t).contains_key(key) implies tmap(t)[key]
            == tmap(s).remove(s[p].0)[key] by {
            let i = choose|i: int| 0 <= i < t.len() && #[trigger] t[i].0 == key;
            if i < p {
                assert(t[i] == s[i]);
            } else {
                assert(t[i] == s[i + 1]);
            }
        }
    }
}

/// Where `key` stands in a table in key order: `(found, pos)`, with
/// every key before `pos` smaller than `key` and every key from `pos` on
/// not smaller; `found` when the key at `pos` is `key`.
pub fn locate<X>(v: &Vec<(String, X)>, key: &str) -> (r: (bool, usize))
    requires
        sorted_keys(v@),
    ensures
        r.1 <= v.len(),
        forall|i: int| 0 <= i < r.1 ==> str_lt(#[trigger] v@[i].0@, key@),
        forall|i: int| r.1 <= i < v.len() ==> !str_lt(#[trigger] v@[i].0@, key@),
        r.0 == key_in(v@, key@),
        r.0 ==> r.1 < v.len() && v@[r.1 as int].0@ == key@,
        !r.0 ==> forall|i: int| r.1 <= i < v.len() ==> str_lt(key@, #[trigger] v@[i].0@),
{
    proof {
        lemma_lt_laws();
    }
    let mut i: usize = 0;
    while i < v.len() && string_lt(v[i].0.as_str(), key)
        invariant
            i <= v.len(),
            sorted_keys(v@),
            forall|j: int| 0 <= j < i ==> str_lt(#[trigger] v@[j].0@, key@),
        decreases v.len() - i,
    {
        i += 1;
    }
    assert forall|j: int| i <= j < v.len() implies !str_lt(#[trigger] v@[j].0@, key@) by {
        if j > i {
            assert(str_lt(v@[i as int].0@, v@[j].0@));
        }
    }
    let found = i < v.len() && string_eq(v[i].0.as_str(), key);
    if found {
        assert(v@[i as int].0@ == key@);
    } else {
        assert forall|j: int| i <= j < v.len() implies str_lt(key@, #[trigger] v@[j].0@) by {
            if j > i {
                assert(str_lt(v@[i as int].0@, v@[j].0@));
            }
            if j == i {
                assert(v@[j].0@ != key@);
            }
        }
        proof {
            if key_in(v@, key@) {
                let j = choose|j: int| 0 <= j < v@.len() && #[trigger] v@[j].0@ == key@;
                if j < i as int {
                    assert(str_lt(v@[j].0@, key@));
                } else {
                    assert(str_lt(key@, v@[j].0@));
                }
            }
        }
    }
    (found, i)
}

} // verus!
