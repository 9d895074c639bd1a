//! The lexicographic order of strings (`Ord for str`: by code point,
//! a proper prefix first), its laws, and tables keyed by strings kept in
//! that order.
use vstd::prelude::*;
use crate::text::{chars_of, same};

verus! {

broadcast use vstd::seq_lib::group_seq_properties;

/// `a < b` for strings.
pub open spec fn str_lt(a: Seq<char>, b: Seq<char>) -> bool
    decreases a.len(),
{
    if b.len() == 0 {
        false
    } else if a.len() == 0 {
        true
    } else if a[0] != b[0] {
        (a[0] as int) < (b[0] as int)
    } else {
        str_lt(a.drop_first(), b.drop_first())
    }
}

/// No string precedes itself.
pub proof fn lemma_lt_irreflexive(a: Seq<char>)
    ensures
        !str_lt(a, a),
    decreases a.len(),
{
    if a.len() > 0 {
        lemma_lt_irreflexive(a.drop_first());
    }
}

/// The order is transitive.
pub proof fn lemma_lt_transitive(a: Seq<char>, b: Seq<char>, c: Seq<char>)
    requires
        str_lt(a, b),
        str_lt(b, c),
    ensures
        str_lt(a, c),
    decreases a.len(),
{
    if a.len() > 0 && b.len() > 0 && c.len() > 0 && a[0] == b[0] && b[0] == c[0] {
        lemma_lt_transitive(a.drop_first(), b.drop_first(), c.drop_first());
    }
}

/// Two different strings are ordered one way or the other, never both.
pub proof fn lemma_lt_total(a: Seq<char>, b: Seq<char>)
    ensures
        a != b ==> (str_lt(a, b) || str_lt(b, a)),
        !(str_lt(a, b) && str_lt(b, a)),
    decreases a.len(),
{
    if a.len() > 0 && b.len() > 0 && a[0] == b[0] {
        lemma_lt_total(a.drop_first(), b.drop_first());
        if a.drop_first() == b.drop_first() {
            assert(a =~= seq![a[0]] + a.drop_first());
            assert(b =~= seq![b[0]] + b.drop_first());
        }
    } else if a.len() > 0 && b.len() > 0 {
        assert((a[0] as int) != (b[0] as int));
    } else if a.len() == 0 && b.len() == 0 {
        assert(a =~= b);
    }
}

/// The order on strings as a single fact set (for quantified use).
pub proof fn lemma_lt_laws()
    ensures
        forall|a: Seq<char>| !#[trigger] str_lt(a, a),
        forall|a: Seq<char>, b: Seq<char>, c: Seq<char>|
            #[trigger] str_lt(a, b) && #[trigger] str_lt(b, c) ==> str_lt(a, c),
        forall|a: Seq<char>, b: Seq<char>|
            a != b ==> (#[trigger] str_lt(a, b) || #[trigger] str_lt(b, a)),
        forall|a: Seq<char>, b: Seq<char>| #[trigger] str_lt(a, b) ==> !str_lt(b, a),
{
    assert forall|a: Seq<char>| !#[trigger] str_lt(a, a) by {
        lemma_lt_irreflexive(a);
    }
    assert forall|a: Seq<char>, b: Seq<char>, c: Seq<char>|
        #[trigger] str_lt(a, b) && #[trigger] str_lt(b, c) implies str_lt(a, c) by {
        lemma_lt_transitive(a, b, c);
    }
    assert forall|a: Seq<char>, b: Seq<char>|
        a != b implies (#[trigger] str_lt(a, b) || #[trigger] str_lt(b, a)) by {
        lemma_lt_total(a, b);
    }
    assert forall|a: Seq<char>, b: Seq<char>| #[trigger] str_lt(a, b) implies !str_lt(b, a) by {
        lemma_lt_total(a, b);
    }
}

/// `a < b` for character vectors.
pub fn chars_lt(a: &[char], b: &[char]) -> (r: bool)
    ensures
        r == str_lt(a@, b@),
{
    let mut i: usize = 0;
    assert(a@.skip(0) =~= a@);
    assert(b@.skip(0) =~= b@);
    while i < a.len() && i < b.len() && a[i] == b[i]
        invariant
            i <= a.len(),
            i <= b.len(),
            str_lt(a@, b@) == str_lt(a@.skip(i as int), b@.skip(i as int)),
        decreases a.len() - i,
    {
        assert(a@.skip(i as int).drop_first() =~= a@.skip(i + 1));
        assert(b@.skip(i as int).drop_first() =~= b@.skip(i + 1));
        i += 1;
    }
    if i == b.len() {
        false
    } else if i == a.len() {
        true
    } else {
        a[i] < b[i]
    }
}

/// `a < b` for strings.
pub fn string_lt(a: &str, b: &str) -> (r: bool)
    ensures
        r == str_lt(a@, b@),
{
    let av = chars_of(a);
    let bv = chars_of(b);
    chars_lt(av.as_slice(), bv.as_slice())
}

/// `a == b` for strings.
pub fn string_eq(a: &str, b: &str) -> (r: bool)
    ensures
        r == (a@ == b@),
{
    let av = chars_of(a);
    let bv = chars_of(b);
    same(av.as_slice(), bv.as_slice())
}

// ───────────────────────── ordered string sequences ─────────────────────────

/// Strictly increasing: sorted and free of duplicates.
pub open spec fn increasing(s: Seq<Seq<char>>) -> bool {
    forall|i: int, j: int| 0 <= i < j < s.len() ==> str_lt(#[trigger] s[i], #[trigger] s[j])
}

/// The views of a vector of strings.
pub open spec fn strs(v: Seq<String>) -> Seq<Seq<char>> {
    v.map_values(|x: String| x@)
}

/// Two increasing sequences with the same elements are the same sequence.
pub proof fn lemma_increasing_unique(a: Seq<Seq<char>>, b: Seq<Seq<char>>)
    requires
        increasing(a),
        increasing(b),
        a.to_set() == b.to_set(),
    ensures
        a == b,
    decreases a.len(),
{
    lemma_lt_laws();
    if a.len() == 0 {
        if b.len() > 0 {
            assert(b.to_set().contains(b[0]));
        }
        assert(a =~= b);
    } else if b.len() == 0 {
        assert(a.to_set().contains(a[0]));
    } else {
        assert(a.to_set().contains(b[0]));
        assert(b.to_set().contains(a[0]));
        let ia = choose|i: int| 0 <= i < a.len() && a[i] == b[0];
        let ib = choose|i: int| 0 <= i < b.len() && b[i] == a[0];
        if a[0] != b[0] {
            assert(ia > 0 && ib > 0);
            assert(str_lt(a[0], a[ia]));
            assert(str_lt(b[0], b[ib]));
        }
        let a1 = a.drop_first();
        let b1 = b.drop_first();
        assert(a1.to_set() =~= b1.to_set()) by {
            assert forall|x: Seq<char>| a1.to_set().contains(x) implies b1.to_set().contains(x) by {
                let i = choose|i: int| 0 <= i < a1.len() && a1[i] == x;
                assert(a[i + 1] == x);
                assert(b.to_set().contains(x));
                let j = choose|j: int| 0 <= j < b.len() && b[j] == x;
                if j == 0 {
                    assert(str_lt(a[0], a[i + 1]));
                }
                assert(b1[j - 1] == x);
            }
            assert forall|x: Seq<char>| b1.to_set().contains(x) implies a1.to_set().contains(x) by {
                let i = choose|i: int| 0 <= i < b1.len() && b1[i] == x;
                assert(b[i + 1] == x);
                assert(a.to_set().contains(x));
                let j = choose|j: int| 0 <= j < a.len() && a[j] == x;
                if j == 0 {
                    assert(str_lt(b[0], b[i + 1]));
                }
                assert(a1[j - 1] == x);
            }
        }
        lemma_increasing_unique(a1, b1);
        assert(a =~= seq![a[0]] + a1);
        assert(b =~= seq![b[0]] + b1);
    }
}

/// The increasing listing of a set of strings.
pub open spec fn sorted_list(s: Set<Seq<char>>) -> Seq<Seq<char>> {
    choose|l: Seq<Seq<char>>| increasing(l) && l.to_set() == s
}

/// An increasing sequence is the sorted listing of its elements.
pub proof fn lemma_sorted_list(l: Seq<Seq<char>>)
    requires
        increasing(l),
    ensures
        sorted_list(l.to_set()) == l,
{
    let c = sorted_list(l.to_set());
    assert(increasing(c) && c.to_set() == l.to_set());
    lemma_increasing_unique(c, l);
}

/// Inserting an element at its place keeps a sequence increasing.
pub proof fn lemma_inc_insert(s: Seq<Seq<char>>, q: int, m: Seq<char>)
    requires
        increasing(s),
        0 <= q <= s.len(),
        forall|i: int| 0 <= i < q ==> str_lt(#[trigger] s[i], m),
        forall|i: int| q <= i < s.len() ==> str_lt(m, #[trigger] s[i]),
    ensures
        increasing(s.insert(q, m)),
        s.insert(q, m).to_set() == s.to_set().insert(m),
{
    let t = s.insert(q, m);
    assert forall|i: int, j: int| 0 <= i < j < t.len() implies str_lt(
        #[trigger] t[i],
        #[trigger] t[j],
    ) by {
        if j < q {
            assert(t[i] == s[i] && t[j] == s[j]);
        } else if j == q {
            assert(t[i] == s[i]);
        } else if i > q {
            assert(t[i] == s[i - 1] && t[j] == s[j - 1]);
        } else if i == q {
            assert(t[j] == s[j - 1]);
        } else {
            assert(t[i] == s[i] && t[j] == s[j - 1]);
        }
    }
    assert(t.to_set() =~= s.to_set().insert(m)) by {
        assert forall|x: Seq<char>| t.contains(x) implies s.to_set().insert(m).contains(x) by {
            let i = choose|i: int| 0 <= i < t.len() && t[i] == x;
            if i < q {
                assert(s[i] == x);
            } else if i > q {
                assert(s[i - 1] == x);
            }
        }
        assert forall|x: Seq<char>| s.to_set().insert(m).contains(x) implies t.contains(x) by {
            if x == m {
                assert(t[q] == x);
            } else {
                let i = choose|i: int| 0 <= i < s.len() && s[i] == x;
                if i < q {
                    assert(t[i] == x);
                } else {
                    assert(t[i + 1] == x);
                }
            }
        }
    }
}

/// Removing an element keeps a sequence increasing and drops it from
/// the set.
pub proof fn lemma_inc_remove(s: Seq<Seq<char>>, q: int)
    requires
        increasing(s),
        0 <= q < s.len(),
    ensures
        increasing(s.remove(q)),
        s.remove(q).to_set() == s.to_set().remove(s[q]),
{
    lemma_lt_laws();
    let t = s.remove(q);
    assert forall|i: int, j: int| 0 <= i < j < t.len() implies str_lt(
        #[trigger] t[i],
        #[trigger] t[j],
    ) by {
        if j < q {
            assert(t[i] == s[i] && t[j] == s[j]);
        } else if i >= q {
            assert(t[i] == s[i + 1] && t[j] == s[j + 1]);
        } else {
            assert(t[i] == s[i] && t[j] == s[j + 1]);
        }
    }
    assert(t.to_set() =~= s.to_set().remove(s[q])) by {
        assert forall|x: Seq<char>| t.contains(x) implies s.to_set().remove(s[q]).contains(x) by {
            let i = choose|i: int| 0 <= i < t.len() && t[i] == x;
            if i < q {
                assert(s[i] == x);
                assert(str_lt(s[i], s[q]));
            } else {
                assert(s[i + 1] == x);
                assert(str_lt(s[q], s[i + 1]));
            }
        }
        assert forall|x: Seq<char>| s.to_set().remove(s[q]).contains(x) implies t.contains(x) by {
            let i = choose|i: int| 0 <= i < s.len() && s[i] == x;
            if i < q {
                assert(t[i] == x);
            } else {
                assert(t[i - 1] == x);
            }
        }
    }
}

/// Where `m` stands in an increasing vector of strings: `(found, pos)`.
pub fn locate_str(l: &Vec<String>, m: &str) -> (r: (bool, usize))
    requires
        increasing(strs(l@)),
    ensures
        r.1 <= l.len(),
        forall|i: int| 0 <= i < r.1 ==> str_lt(#[trigger] strs(l@)[i], m@),
        r.0 == strs(l@).contains(m@),
        r.0 ==> r.1 < l.len() && strs(l@)[r.1 as int] == m@,
        !r.0 ==> forall|i: int| r.1 <= i < l.len() ==> str_lt(m@, #[trigger] strs(l@)[i]),
{
    proof {
        lemma_lt_laws();
    }
    let ghost s = strs(l@);
    let mut i: usize = 0;
    while i < l.len() && string_lt(l[i].as_str(), m)
        invariant
            i <= l.len(),
            s == strs(l@),
            increasing(s),
            forall|j: int| 0 <= j < i ==> str_lt(#[trigger] s[j], m@),
        decreases l.len() - i,
    {
        i += 1;
    }
    let found = i < l.len() && string_eq(l[i].as_str(), m);
    if found {
        assert(s[i as int] == m@);
        assert(s.contains(m@));
    } else {
        assert forall|j: int| i <= j < l.len() implies str_lt(m@, #[trigger] s[j]) by {
            if j > i {
                assert(str_lt(s[i as int], s[j]));
                if str_lt(s[j], m@) {
                    assert(str_lt(s[i as int], m@));
                }
            }
            if j == i {
                assert(s[j] != m@);
            }
        }
        proof {
            if s.contains(m@) {
                let j = choose|j: int| 0 <= j < s.len() && s[j] == m@;
                if j < i as int {
                    assert(str_lt(s[j], m@));
                } else {
                    assert(str_lt(m@, s[j]));
                }
            }
        }
    }
    (found, i)
}

/// The increasing list of the distinct strings of `l`.
pub fn sorted_unique(l: &Vec<String>) -> (r: Vec<String>)
    ensures
        increasing(strs(r@)),
        strs(r@).to_set() == strs(l@).to_set(),
{

    let mut r: Vec<String> = Vec::new();
    let mut i: usize = 0;
    assert(strs(r@).to_set() =~= strs(l@).take(0).to_set());
    while i < l.len()
        invariant
            i <= l.len(),
            increasing(strs(r@)),
            strs(r@).to_set() == strs(l@).take(i as int).to_set(),
        decreases l.len() - i,
    {
        let (present, q) = locate_str(&r, l[i].as_str());
        let ghost before = strs(r@);
        assert(strs(l@).take(i + 1) =~= strs(l@).take(i as int).push(l@[i as int]@));
        if !present {
            r.insert(q, l[i].clone());
            proof {
                lemma_inc_insert(before, q as int, l@[i as int]@);
                assert(strs(r@) =~= before.insert(q as int, l@[i as int]@));
                assert(strs(r@).to_set() =~= strs(l@).take(i + 1).to_set());
            }
        } else {
            assert(strs(r@).to_set() =~= strs(l@).take(i + 1).to_set());
        }
        i += 1;
    }
    assert(strs(l@).take(l.len() as int) =~= strs(l@));
    r
}

/// A copy of a vector of strings.
pub fn copy_strings(l: &Vec<String>) -> (r: Vec<String>)
    ensures
        r@ == l@,
{
    let mut r: Vec<String> = Vec::new();
    let mut i: usize = 0;
    while i < l.len()
        invariant
            i <= l.len(),
            r@ == l@.subrange(0, i as int),
        decreases l.len() - i,
    {
        r.push(l[i].clone());
        i += 1;
        assert(r@ =~= l@.subrange(0, i as int));
    }
    assert(r@ =~= l@);
    r
}

} // verus!
