//! Per-window mark store: which marks each window (keyed by its
//! compositor address) carries, plus the class and title each window last
//! reported, and the snapshot form the store is persisted in.
use vstd::prelude::*;
use vstd::string::*;
use crate::order::{
    str_lt, lemma_lt_laws, increasing, strs, sorted_list, lemma_sorted_list, lemma_inc_insert,
    lemma_inc_remove, locate_str, copy_strings, lemma_increasing_unique, sorted_unique,
};
use crate::table::{
    keys_inc, has_key, tmap, sorted_keys, key_in, lemma_tmap, lemma_tmap_insert,
    lemma_tmap_update, lemma_tmap_remove, locate, lemma_tmap_unique,
};

verus! {

broadcast use vstd::seq_lib::group_seq_properties;

/// The class + title a window reported, used to re-match snapshotted
/// marks to a live window after a restart.
#[derive(Debug, Clone, PartialEq, Eq)]
pub struct WindowIdentity {
    /// Window class (`app_id` analog).
    pub class: String,
    /// Window title at the time the window was last seen.
    pub title: String,
}

impl Default for WindowIdentity {
    fn default() -> (r: Self)
        ensures
            r.class@ == Seq::<char>::empty(),
            r.title@ == Seq::<char>::empty(),
    {
        WindowIdentity { class: String::new(), title: String::new() }
    }
}

/// What a mark store holds: the identity each window last reported, and
/// the set of marks each marked window carries.
pub struct MarksView {
    pub identity: Map<Seq<char>, (Seq<char>, Seq<char>)>,
    pub marks: Map<Seq<char>, Set<Seq<char>>>,
}

/// The marks window `a` carries (none when it is unknown).
pub open spec fn marks_at(v: MarksView, a: Seq<char>) -> Set<Seq<char>> {
    if v.marks.contains_key(a) {
        v.marks[a]
    } else {
        Set::empty()
    }
}

/// Every store keeps finitely many windows, and only windows that carry
/// at least one mark have an entry in `marks`.
pub open spec fn view_ok(v: MarksView) -> bool {
    &&& v.identity.dom().finite()
    &&& v.marks.dom().finite()
    &&& forall|a: Seq<char>| #[trigger]
        v.marks.contains_key(a) ==> v.marks[a].finite() && v.marks[a] != Set::<Seq<char>>::empty()
}

/// The empty store.
pub open spec fn empty_view() -> MarksView {
    MarksView { identity: Map::empty(), marks: Map::empty() }
}

/// `add_mark` changes the store exactly when the mark is non-empty and
/// not yet on the window.
pub open spec fn add_changes(v: MarksView, a: Seq<char>, m: Seq<char>) -> bool {
    m.len() > 0 && !marks_at(v, a).contains(m)
}

/// The store after `add_mark(a, m)`.
pub open spec fn after_add(v: MarksView, a: Seq<char>, m: Seq<char>) -> MarksView {
    if add_changes(v, a, m) {
        MarksView { identity: v.identity, marks: v.marks.insert(a, marks_at(v, a).insert(m)) }
    } else {
        v
    }
}

/// `remove_mark` changes the store exactly when the window carries the
/// mark.
pub open spec fn remove_changes(v: MarksView, a: Seq<char>, m: Seq<char>) -> bool {
    marks_at(v, a).contains(m)
}

/// The store after `remove_mark(a, m)`: a window left without marks loses
/// its entry.
pub open spec fn after_remove(v: MarksView, a: Seq<char>, m: Seq<char>) -> MarksView {
    if !remove_changes(v, a, m) {
        v
    } else if marks_at(v, a).remove(m) == Set::<Seq<char>>::empty() {
        MarksView { identity: v.identity, marks: v.marks.remove(a) }
    } else {
        MarksView { identity: v.identity, marks: v.marks.insert(a, marks_at(v, a).remove(m)) }
    }
}

/// The store after `note_window(a, class, title)`.
pub open spec fn after_note(v: MarksView, a: Seq<char>, c: Seq<char>, t: Seq<char>) -> MarksView {
    MarksView { identity: v.identity.insert(a, (c, t)), marks: v.marks }
}

/// The store after `drop_window(a)`.
pub open spec fn after_drop(v: MarksView, a: Seq<char>) -> MarksView {
    MarksView { identity: v.identity.remove(a), marks: v.marks.remove(a) }
}

/// The windows carrying mark `m`.
pub open spec fn marked_with(v: MarksView, m: Seq<char>) -> Set<Seq<char>> {
    Set::new(|a: Seq<char>| v.marks.contains_key(a) && v.marks[a].contains(m))
}

/// Per-window mark store. Windows are kept in address order, and each
/// window's marks in increasing order without duplicates.
#[derive(Debug, Clone, PartialEq, Eq)]
pub struct MarksStore {
    /// addr → window identity (for snapshot replay matching).
    identity: Vec<(String, WindowIdentity)>,
    /// addr → marks (sorted, deduped, never empty).
    marks: Vec<(String, Vec<String>)>,
}

pub open spec fn id_pairs(v: Seq<(String, WindowIdentity)>) -> Seq<
    (Seq<char>, (Seq<char>, Seq<char>)),
> {
    v.map_values(|p: (String, WindowIdentity)| (p.0@, (p.1.class@, p.1.title@)))
}

pub open spec fn set_pairs(v: Seq<(String, Vec<String>)>) -> Seq<(Seq<char>, Set<Seq<char>>)> {
    v.map_values(|p: (String, Vec<String>)| (p.0@, strs(p.1@).to_set()))
}

impl View for MarksStore {
    type V = MarksView;

    closed spec fn view(&self) -> MarksView {
        MarksView { identity: tmap(id_pairs(self.identity@)), marks: tmap(set_pairs(self.marks@)) }
    }
}

proof fn lemma_id_pairs(v: Seq<(String, WindowIdentity)>)
    requires
        sorted_keys(v),
    ensures
        keys_inc(id_pairs(v)),
        forall|k: Seq<char>| has_key(id_pairs(v), k) == key_in(v, k),
        forall|k: Seq<char>| #[trigger] tmap(id_pairs(v)).contains_key(k) == key_in(v, k),
        forall|i: int|
            0 <= i < v.len() ==> #[trigger] tmap(id_pairs(v))[v[i].0@] == (
                v[i].1.class@,
                v[i].1.title@,
            ),
        tmap(id_pairs(v)).dom().finite(),
{
    let s = id_pairs(v);
    assert forall|i: int, j: int| 0 <= i < j < s.len() implies str_lt(
        #[trigger] s[i].0,
        #[trigger] s[j].0,
    ) by {
        assert(s[i].0 == v[i].0@ && s[j].0 == v[j].0@);
    }
    assert forall|k: Seq<char>| has_key(s, k) == key_in(v, k) by {
        if has_key(s, k) {
            let i = choose|i: int| 0 <= i < s.len() && #[trigger] s[i].0 == k;
            assert(v[i].0@ == k);
        }
        if key_in(v, k) {
            let i = choose|i: int| 0 <= i < v.len() && #[trigger] v[i].0@ == k;
            assert(s[i].0 == k);
        }
    }
    lemma_tmap(s);
    assert forall|i: int| 0 <= i < v.len() implies #[trigger] tmap(s)[v[i].0@] == (
        v[i].1.class@,
        v[i].1.title@,
    ) by {
        assert(s[i].0 == v[i].0@);
    }
}

proof fn lemma_set_pairs(v: Seq<(String, Vec<String>)>)
    requires
        sorted_keys(v),
    ensures
        keys_inc(set_pairs(v)),
        forall|k: Seq<char>| has_key(set_pairs(v), k) == key_in(v, k),
        forall|k: Seq<char>| #[trigger] tmap(set_pairs(v)).contains_key(k) == key_in(v, k),
        forall|i: int|
            0 <= i < v.len() ==> #[trigger] tmap(set_pairs(v))[v[i].0@] == strs(
                v[i].1@,
            ).to_set(),
        tmap(set_pairs(v)).dom().finite(),
{
    let s = set_pairs(v);
    assert forall|i: int, j: int| 0 <= i < j < s.len() implies str_lt(
        #[trigger] s[i].0,
        #[trigger] s[j].0,
    ) by {
        assert(s[i].0 == v[i].0@ && s[j].0 == v[j].0@);
    }
    assert forall|k: Seq<char>| has_key(s, k) == key_in(v, k) by {
        if has_key(s, k) {
            let i = choose|i: int| 0 <= i < s.len() && #[trigger] s[i].0 == k;
            assert(v[i].0@ == k);
        }
        if key_in(v, k) {
            let i = choose|i: int| 0 <= i < v.len() && #[trigger] v[i].0@ == k;
            assert(s[i].0 == k);
        }
    }
    lemma_tmap(s);
    assert forall|i: int| 0 <= i < v.len() implies #[trigger] tmap(s)[v[i].0@] == strs(
        v[i].1@,
    ).to_set() by {
        assert(s[i].0 == v[i].0@);
    }
}

impl MarksStore {
    /// Windows in address order; marks of each in increasing order, never
    /// empty.
    pub closed spec fn wf(&self) -> bool {
        &&& sorted_keys(self.identity@)
        &&& sorted_keys(self.marks@)
        &&& forall|i: int|
            0 <= i < self.marks@.len() ==> increasing(strs(#[trigger] self.marks@[i].1@))
                && self.marks@[i].1@.len() > 0
    }

    /// A well-formed store satisfies `view_ok`.
    pub proof fn lemma_wf(&self)
        requires
            self.wf(),
        ensures
            view_ok(self@),
    {
        lemma_id_pairs(self.identity@);
        lemma_set_pairs(self.marks@);
        assert forall|a: Seq<char>| #[trigger] self@.marks.contains_key(a) implies self@.marks[
            a
        ].finite() && self@.marks[a] != Set::<Seq<char>>::empty() by {
            let i = choose|i: int|
                0 <= i < self.marks@.len() && #[trigger] self.marks@[i].0@ == a;
            let l = strs(self.marks@[i].1@);
            assert(l.to_set().contains(l[0]));
        }
    }

    /// The empty store.
    pub fn new() -> (r: Self)
        ensures
            r.wf(),
            r@ == empty_view(),
    {
        let r = MarksStore { identity: Vec::new(), marks: Vec::new() };
        assert(r@.identity =~= Map::empty());
        assert(r@.marks =~= Map::empty());
        r
    }

    /// Add `mark` to `addr` (idempotent). Returns `true` when the mark set
    /// actually changed (so the caller knows to publish a delta).
    pub fn add_mark(&mut self, addr: &str, mark: &str) -> (changed: bool)
        requires
            old(self).wf(),
        ensures
            final(self).wf(),
            changed == add_changes(old(self)@, addr@, mark@),
            final(self)@ == after_add(old(self)@, addr@, mark@),
    {
        proof {
            lemma_id_pairs(self.identity@);
            lemma_set_pairs(self.marks@);
        }
        if mark.is_empty() {
            return false;
        }
        let (found, p) = locate(&self.marks, addr);
        let ghost old_marks = self.marks@;
        let ghost v0 = self@;
        if found {
            let (present, q) = locate_str(&self.marks[p].1, mark);
            assert(v0.marks[addr@] == strs(old_marks[p as int].1@).to_set());
            if present {
                return false;
            }
            let (k, mut l) = self.marks.remove(p);
            let ghost ol = strs(l@);
            assert(ol == strs(old_marks[p as int].1@));
            l.insert(q, String::from_str(mark));
            proof {
                lemma_inc_insert(ol, q as int, mark@);
                assert(strs(l@) =~= ol.insert(q as int, mark@));
            }
            self.marks.insert(p, (k, l));
            proof {
                assert(self.marks@ =~= old_marks.update(p as int, (k, l)));
                assert(set_pairs(self.marks@) =~= set_pairs(old_marks).update(
                    p as int,
                    (set_pairs(old_marks)[p as int].0, strs(l@).to_set()),
                ));
                lemma_tmap_update(set_pairs(old_marks), p as int, strs(l@).to_set());
                assert forall|i: int, j: int|
                    0 <= i < j < self.marks@.len() implies str_lt(
                    #[trigger] self.marks@[i].0@,
                    #[trigger] self.marks@[j].0@,
                ) by {
                    assert(self.marks@[i].0 == old_marks[i].0);
                    assert(self.marks@[j].0 == old_marks[j].0);
                }
                assert forall|i: int| 0 <= i < self.marks@.len() implies increasing(
                    strs(#[trigger] self.marks@[i].1@),
                ) && self.marks@[i].1@.len() > 0 by {
                    if i != p {
                        assert(self.marks@[i] == old_marks[i]);
                    }
                }
                assert(self@.marks =~= after_add(v0, addr@, mark@).marks);
            }
        } else {
            let mut l: Vec<String> = Vec::new();
            l.push(String::from_str(mark));
            let key = String::from_str(addr);
            proof {
                assert(strs(l@) =~= seq![mark@]);
                assert(strs(l@).to_set() =~= Set::<Seq<char>>::empty().insert(mark@));
                assert(!v0.marks.contains_key(addr@));
            }
            self.marks.insert(p, (key, l));
            proof {
                assert(set_pairs(self.marks@) =~= set_pairs(old_marks).insert(
                    p as int,
                    (addr@, strs(l@).to_set()),
                ));
                lemma_tmap_insert(set_pairs(old_marks), p as int, addr@, strs(l@).to_set());
                assert forall|i: int, j: int|
                    0 <= i < j < self.marks@.len() implies str_lt(
                    #[trigger] self.marks@[i].0@,
                    #[trigger] self.marks@[j].0@,
                ) by {
                    assert(set_pairs(self.marks@)[i].0 == self.marks@[i].0@);
                    assert(set_pairs(self.marks@)[j].0 == self.marks@[j].0@);
                }
                assert forall|i: int| 0 <= i < self.marks@.len() implies increasing(
                    strs(#[trigger] self.marks@[i].1@),
                ) && self.marks@[i].1@.len() > 0 by {
                    if i < p {
                        assert(self.marks@[i] == old_marks[i]);
                    } else if i > p {
                        assert(self.marks@[i] == old_marks[i - 1]);
                    }
                }
                assert(self@.marks =~= after_add(v0, addr@, mark@).marks);
            }
        }
        true
    }

    /// Remove `mark` from `addr`. Returns `true` when something was
    /// removed.
    pub fn remove_mark(&mut self, addr: &str, mark: &str) -> (changed: bool)
        requires
            old(self).wf(),
        ensures
            final(self).wf(),
            changed == remove_changes(old(self)@, addr@, mark@),
            final(self)@ == after_remove(old(self)@, addr@, mark@),
    {
        proof {
            lemma_id_pairs(self.identity@);
            lemma_set_pairs(self.marks@);
        }
        let (found, p) = locate(&self.marks, addr);
        let ghost old_marks = self.marks@;
        let ghost v0 = self@;
        if !found {
            return false;
        }
        let (present, q) = locate_str(&self.marks[p].1, mark);
        assert(v0.marks[addr@] == strs(old_marks[p as int].1@).to_set());
        if !present {
            return false;
        }
        let (k, mut l) = self.marks.remove(p);
        let ghost ol = strs(l@);
        assert(ol == strs(old_marks[p as int].1@));
        l.remove(q);
        proof {
            lemma_inc_remove(ol, q as int);
            assert(strs(l@) =~= ol.remove(q as int));
        }
        if l.len() == 0 {
            proof {
                assert(self.marks@ =~= old_marks.remove(p as int));
                assert(set_pairs(self.marks@) =~= set_pairs(old_marks).remove(p as int));
                lemma_tmap_remove(set_pairs(old_marks), p as int);
                assert(strs(l@).to_set() =~= Set::<Seq<char>>::empty());
                assert forall|i: int, j: int|
                    0 <= i < j < self.marks@.len() implies str_lt(
                    #[trigger] self.marks@[i].0@,
                    #[trigger] self.marks@[j].0@,
                ) by {
                    assert(set_pairs(self.marks@)[i].0 == self.marks@[i].0@);
                    assert(set_pairs(self.marks@)[j].0 == self.marks@[j].0@);
                }
                assert forall|i: int| 0 <= i < self.marks@.len() implies increasing(
                    strs(#[trigger] self.marks@[i].1@),
                ) && self.marks@[i].1@.len() > 0 by {
                    if i < p {
                        assert(self.marks@[i] == old_marks[i]);
                    } else {
                        assert(self.marks@[i] == old_marks[i + 1]);
                    }
                }
                assert(self@.marks =~= after_remove(v0, addr@, mark@).marks);
            }
        } else {
            self.marks.insert(p, (k, l));
            proof {
                assert(self.marks@ =~= old_marks.update(p as int, (k, l)));
                assert(set_pairs(self.marks@) =~= set_pairs(old_marks).update(
                    p as int,
                    (set_pairs(old_marks)[p as int].0, strs(l@).to_set()),
                ));
                lemma_tmap_update(set_pairs(old_marks), p as int, strs(l@).to_set());
                assert(strs(l@).to_set().contains(strs(l@)[0]));
                assert forall|i: int, j: int|
                    0 <= i < j < self.marks@.len() implies str_lt(
                    #[trigger] self.marks@[i].0@,
                    #[trigger] self.marks@[j].0@,
                ) by {
                    assert(self.marks@[i].0 == old_marks[i].0);
                    assert(self.marks@[j].0 == old_marks[j].0);
                }
                assert forall|i: int| 0 <= i < self.marks@.len() implies increasing(
                    strs(#[trigger] self.marks@[i].1@),
                ) && self.marks@[i].1@.len() > 0 by {
                    if i != p {
                        assert(self.marks@[i] == old_marks[i]);
                    }
                }
                assert(self@.marks =~= after_remove(v0, addr@, mark@).marks);
            }
        }
        true
    }

    /// List the marks on `addr` (empty when none / unknown), in increasing
    /// order.
    pub fn list_marks(&self, addr: &str) -> (r: Vec<String>)
        requires
            self.wf(),
        ensures
            strs(r@) == sorted_list(marks_at(self@, addr@)),
    {
        proof {
            lemma_set_pairs(self.marks@);
        }
        let (found, p) = locate(&self.marks, addr);
        if found {
            let r = copy_strings(&self.marks[p].1);
            proof {
                lemma_sorted_list(strs(r@));
            }
            r
        } else {
            let r: Vec<String> = Vec::new();
            proof {
                assert(strs(r@) =~= Seq::<Seq<char>>::empty());
                assert(strs(r@).to_set() =~= Set::<Seq<char>>::empty());
                lemma_sorted_list(strs(r@));
            }
            r
        }
    }

    /// Every address carrying `mark`, in increasing order.
    pub fn match_marks(&self, mark: &str) -> (r: Vec<String>)
        requires
            self.wf(),
        ensures
            strs(r@) == sorted_list(marked_with(self@, mark@)),
    {
        proof {
            lemma_set_pairs(self.marks@);
            lemma_lt_laws();
        }
        let ghost v = self@;
        let mut out: Vec<String> = Vec::new();
        let mut i: usize = 0;
        while i < self.marks.len()
            invariant
                self.wf(),
                v == self@,
                i <= self.marks.len(),
                increasing(strs(out@)),
                forall|k: int| #![trigger strs(out@)[k]]
                    0 <= k < out.len() ==> exists|j: int|
                        0 <= j < i && #[trigger] self.marks@[j].0@ == strs(out@)[k],
                forall|a: Seq<char>|
                    strs(out@).contains(a) <==> (exists|j: int|
                        0 <= j < i && #[trigger] self.marks@[j].0@ == a && marked_with(
                            v,
                            mark@,
                        ).contains(a)),
            decreases self.marks.len() - i,
        {
            proof {
                lemma_set_pairs(self.marks@);
                lemma_lt_laws();
            }
            let (present, _q) = locate_str(&self.marks[i].1, mark);
            let ghost a = self.marks@[i as int].0@;
            assert(v.marks[a] == strs(self.marks@[i as int].1@).to_set());
            assert(v.marks.contains_key(a));
            if present {
                let ghost old_out = strs(out@);
                out.push(self.marks[i].0.clone());
                proof {
                    assert(strs(out@) =~= old_out.push(a));
                    assert forall|x: int, y: int| 0 <= x < y < strs(out@).len() implies str_lt(
                        #[trigger] strs(out@)[x],
                        #[trigger] strs(out@)[y],
                    ) by {
                        if y == old_out.len() {
                            let j = choose|j: int|
                                0 <= j < i && #[trigger] self.marks@[j].0@ == old_out[x];
                            assert(str_lt(self.marks@[j].0@, self.marks@[i as int].0@));
                        } else {
                            assert(strs(out@)[x] == old_out[x]);
                            assert(strs(out@)[y] == old_out[y]);
                        }
                    }
                    assert forall|k: int| #![trigger strs(out@)[k]] 0 <= k < out.len() implies exists|j: int|
                        0 <= j < i + 1 && #[trigger] self.marks@[j].0@ == strs(out@)[k] by {
                        if k < old_out.len() {
                            let j = choose|j: int|
                                0 <= j < i && #[trigger] self.marks@[j].0@ == old_out[k];
                            assert(self.marks@[j].0@ == strs(out@)[k]);
                        } else {
                            assert(self.marks@[i as int].0@ == strs(out@)[k]);
                        }
                    }
                    assert forall|x: Seq<char>| strs(out@).contains(x) <==> (exists|j: int|
                        0 <= j < i + 1 && #[trigger] self.marks@[j].0@ == x && marked_with(
                            v,
                            mark@,
                        ).contains(x)) by {
                        if strs(out@).contains(x) {
                            let k = choose|k: int| 0 <= k < strs(out@).len() && strs(out@)[k] == x;
                            if k == old_out.len() {
                                assert(self.marks@[i as int].0@ == x);
                            } else {
                                assert(old_out[k] == x);
                                assert(old_out.contains(x));
                            }
                        }
                        if exists|j: int|
                            0 <= j < i + 1 && #[trigger] self.marks@[j].0@ == x && marked_with(
                                v,
                                mark@,
                            ).contains(x) {
                            let j = choose|j: int|
                                0 <= j < i + 1 && #[trigger] self.marks@[j].0@ == x
                                    && marked_with(v, mark@).contains(x);
                            if j == i {
                                assert(strs(out@)[old_out.len() as int] == x);
                            } else {
                                assert(old_out.contains(x));
                                let k = choose|k: int| 0 <= k < old_out.len() && old_out[k] == x;
                                assert(strs(out@)[k] == x);
                            }
                        }
                    }
                }
            } else {
                proof {
                    assert(!marked_with(v, mark@).contains(a));
                    assert forall|x: Seq<char>| strs(out@).contains(x) <==> (exists|j: int|
                        0 <= j < i + 1 && #[trigger] self.marks@[j].0@ == x && marked_with(
                            v,
                            mark@,
                        ).contains(x)) by {
                        if exists|j: int|
                            0 <= j < i + 1 && #[trigger] self.marks@[j].0@ == x && marked_with(
                                v,
                                mark@,
                            ).contains(x) {
                            let j = choose|j: int|
                                0 <= j < i + 1 && #[trigger] self.marks@[j].0@ == x
                                    && marked_with(v, mark@).contains(x);
                            assert(j != i);
                        }
                    }
                }
            }
            i += 1;
        }
        proof {
            assert(strs(out@).to_set() =~= marked_with(v, mark@)) by {
                assert forall|a: Seq<char>| marked_with(v, mark@).contains(a) implies strs(
                    out@,
                ).contains(a) by {
                    assert(key_in(self.marks@, a));
                    let j = choose|j: int|
                        0 <= j < self.marks@.len() && #[trigger] self.marks@[j].0@ == a;
                    assert(self.marks@[j].0@ == a);
                }
            }
            lemma_sorted_list(strs(out@));
        }
        out
    }

    /// Record a window's identity (class + title) for snapshot replay
    /// matching.
    pub fn note_window(&mut self, addr: &str, class: &str, title: &str)
        requires
            old(self).wf(),
        ensures
            final(self).wf(),
            final(self)@ == after_note(old(self)@, addr@, class@, title@),
    {
        proof {
            lemma_id_pairs(self.identity@);
        }
        let (found, p) = locate(&self.identity, addr);
        let ghost old_id = self.identity@;
        let ghost v0 = self@;
        let ident = WindowIdentity { class: String::from_str(class), title: String::from_str(title) };
        if found {
            let (k, _w) = self.identity.remove(p);
            self.identity.insert(p, (k, ident));
            proof {
                assert(self.identity@ =~= old_id.update(p as int, (k, ident)));
                assert(id_pairs(self.identity@) =~= id_pairs(old_id).update(
                    p as int,
                    (id_pairs(old_id)[p as int].0, (class@, title@)),
                ));
                lemma_tmap_update(id_pairs(old_id), p as int, (class@, title@));
                assert forall|i: int, j: int|
                    0 <= i < j < self.identity@.len() implies str_lt(
                    #[trigger] self.identity@[i].0@,
                    #[trigger] self.identity@[j].0@,
                ) by {
                    assert(self.identity@[i].0 == old_id[i].0);
                    assert(self.identity@[j].0 == old_id[j].0);
                }
            }
        } else {
            self.identity.insert(p, (String::from_str(addr), ident));
            proof {
                assert(id_pairs(self.identity@) =~= id_pairs(old_id).insert(
                    p as int,
                    (addr@, (class@, title@)),
                ));
                lemma_tmap_insert(id_pairs(old_id), p as int, addr@, (class@, title@));
                assert forall|i: int, j: int|
                    0 <= i < j < self.identity@.len() implies str_lt(
                    #[trigger] self.identity@[i].0@,
                    #[trigger] self.identity@[j].0@,
                ) by {
                    assert(id_pairs(self.identity@)[i].0 == self.identity@[i].0@);
                    assert(id_pairs(self.identity@)[j].0 == self.identity@[j].0@);
                }
            }
        }
        proof {
            assert(self@.identity =~= after_note(v0, addr@, class@, title@).identity);
        }
    }

    /// Forget a closed window — drops its identity + marks.
    pub fn drop_window(&mut self, addr: &str)
        requires
            old(self).wf(),
        ensures
            final(self).wf(),
            final(self)@ == after_drop(old(self)@, addr@),
    {
        proof {
            lemma_id_pairs(self.identity@);
            lemma_set_pairs(self.marks@);
        }
        let ghost v0 = self@;
        let (found, p) = locate(&self.identity, addr);
        let ghost old_id = self.identity@;
        if found {
            self.identity.remove(p);
            proof {
                assert(id_pairs(self.identity@) =~= id_pairs(old_id).remove(p as int));
                lemma_tmap_remove(id_pairs(old_id), p as int);
                assert forall|i: int, j: int|
                    0 <= i < j < self.identity@.len() implies str_lt(
                    #[trigger] self.identity@[i].0@,
                    #[trigger] self.identity@[j].0@,
                ) by {
                    assert(id_pairs(self.identity@)[i].0 == self.identity@[i].0@);
                    assert(id_pairs(self.identity@)[j].0 == self.identity@[j].0@);
                }
            }
        } else {
            assert(v0.identity.remove(addr@) =~= v0.identity);
        }
        let (found2, p2) = locate(&self.marks, addr);
        let ghost old_marks = self.marks@;
        if found2 {
            self.marks.remove(p2);
            proof {
                assert(set_pairs(self.marks@) =~= set_pairs(old_marks).remove(p2 as int));
                lemma_tmap_remove(set_pairs(old_marks), p2 as int);
                assert forall|i: int, j: int|
                    0 <= i < j < self.marks@.len() implies str_lt(
                    #[trigger] self.marks@[i].0@,
                    #[trigger] self.marks@[j].0@,
                ) by {
                    assert(set_pairs(self.marks@)[i].0 == self.marks@[i].0@);
                    assert(set_pairs(self.marks@)[j].0 == self.marks@[j].0@);
                }
                assert forall|i: int| 0 <= i < self.marks@.len() implies increasing(
                    strs(#[trigger] self.marks@[i].1@),
                ) && self.marks@[i].1@.len() > 0 by {
                    if i < p2 {
                        assert(self.marks@[i] == old_marks[i]);
                    } else {
                        assert(self.marks@[i] == old_marks[i + 1]);
                    }
                }
            }
        } else {
            assert(v0.marks.remove(addr@) =~= v0.marks);
        }
        proof {
            assert(self@.identity =~= after_drop(v0, addr@).identity);
            assert(self@.marks =~= after_drop(v0, addr@).marks);
        }
    }
}

impl Default for MarksStore {
    fn default() -> (r: Self)
        ensures
            r.wf(),
            r@ == empty_view(),
    {
        MarksStore::new()
    }
}

// ───────────────────────── snapshot ─────────────────────────

/// One window's snapshotted identity + marks.
#[derive(Debug, Clone, PartialEq, Eq)]
pub struct SnapshotEntry {
    /// Window class (replay match key).
    pub class: String,
    /// Window title (replay match key).
    pub title: String,
    /// Marks to restore.
    pub marks: Vec<String>,
}

/// Snapshot of the whole mark store: one entry per window with marks,
/// in address order.
#[derive(Debug, PartialEq, Eq)]
pub struct MarksSnapshot {
    /// One entry per window with marks.
    pub windows: Vec<(String, SnapshotEntry)>,
}

/// An entry as `(class, title, marks)`.
pub open spec fn entry_view(e: SnapshotEntry) -> (Seq<char>, Seq<char>, Seq<Seq<char>>) {
    (e.class@, e.title@, strs(e.marks@))
}

impl View for MarksSnapshot {
    type V = Seq<(Seq<char>, (Seq<char>, Seq<char>, Seq<Seq<char>>))>;

    open spec fn view(&self) -> Seq<(Seq<char>, (Seq<char>, Seq<char>, Seq<Seq<char>>))> {
        self.windows@.map_values(|p: (String, SnapshotEntry)| (p.0@, entry_view(p.1)))
    }
}

impl Default for MarksSnapshot {
    fn default() -> (r: Self)
        ensures
            r@ == Seq::<(Seq<char>, (Seq<char>, Seq<char>, Seq<Seq<char>>))>::empty(),
    {
        let r = MarksSnapshot { windows: Vec::new() };
        assert(r@ =~= Seq::<(Seq<char>, (Seq<char>, Seq<char>, Seq<Seq<char>>))>::empty());
        r
    }
}

/// The identity recorded for window `a`, or an empty one.
pub open spec fn ident_or_empty(v: MarksView, a: Seq<char>) -> (Seq<char>, Seq<char>) {
    if v.identity.contains_key(a) {
        v.identity[a]
    } else {
        (Seq::empty(), Seq::empty())
    }
}

/// What the snapshot of a store records for each marked window.
pub open spec fn snap_map(v: MarksView) -> Map<Seq<char>, (Seq<char>, Seq<char>, Seq<Seq<char>>)> {
    Map::new(
        |a: Seq<char>| v.marks.contains_key(a),
        |a: Seq<char>| (ident_or_empty(v, a).0, ident_or_empty(v, a).1, sorted_list(v.marks[a])),
    )
}

/// The snapshot of a store: its marked windows in address order.
pub open spec fn snapshot_of(v: MarksView) -> Seq<
    (Seq<char>, (Seq<char>, Seq<char>, Seq<Seq<char>>)),
> {
    choose|s: Seq<(Seq<char>, (Seq<char>, Seq<char>, Seq<Seq<char>>))>|
        keys_inc(s) && tmap(s) == snap_map(v)
}

/// The store rebuilt from snapshot entries, taken in order: each entry
/// records its window's identity, and sets its marks when it has any.
pub open spec fn restore(s: Seq<(Seq<char>, (Seq<char>, Seq<char>, Seq<Seq<char>>))>) -> MarksView
    decreases s.len(),
{
    if s.len() == 0 {
        empty_view()
    } else {
        let v = restore(s.drop_last());
        let e = s.last();
        MarksView {
            identity: v.identity.insert(e.0, (e.1.0, e.1.1)),
            marks: if e.1.2.len() > 0 {
                v.marks.insert(e.0, e.1.2.to_set())
            } else {
                v.marks
            },
        }
    }
}

pub closed spec fn snap_witness(store: MarksStore) -> Seq<
    (Seq<char>, (Seq<char>, Seq<char>, Seq<Seq<char>>)),
> {
    store.marks@.map_values(
        |p: (String, Vec<String>)|
            (
                p.0@,
                (
                    ident_or_empty(store@, p.0@).0,
                    ident_or_empty(store@, p.0@).1,
                    strs(p.1@),
                ),
            ),
    )
}

/// The snapshot of a well-formed store exists, and lists its marked
/// windows in the store's own order.
pub proof fn lemma_snapshot_witness(store: MarksStore)
    requires
        store.wf(),
    ensures
        snapshot_of(store@) == snap_witness(store),
        keys_inc(snapshot_of(store@)),
        tmap(snapshot_of(store@)) == snap_map(store@),
{
    let w = snap_witness(store);
    let v = store@;
    lemma_set_pairs(store.marks@);
    assert forall|i: int, j: int| 0 <= i < j < w.len() implies str_lt(
        #[trigger] w[i].0,
        #[trigger] w[j].0,
    ) by {
        assert(w[i].0 == store.marks@[i].0@ && w[j].0 == store.marks@[j].0@);
    }
    lemma_tmap(w);
    assert(tmap(w) =~= snap_map(v)) by {
        assert forall|a: Seq<char>| #[trigger] tmap(w).contains_key(a) <==> snap_map(
            v,
        ).contains_key(a) by {
            if has_key(w, a) {
                let i = choose|i: int| 0 <= i < w.len() && #[trigger] w[i].0 == a;
                assert(store.marks@[i].0@ == a);
            }
            if v.marks.contains_key(a) {
                assert(key_in(store.marks@, a));
                let i = choose|i: int|
                    0 <= i < store.marks@.len() && #[trigger] store.marks@[i].0@ == a;
                assert(w[i].0 == a);
            }
        }
        assert forall|a: Seq<char>| #[trigger] tmap(w).contains_key(a) implies tmap(w)[a]
            == snap_map(v)[a] by {
            let i = choose|i: int| 0 <= i < w.len() && #[trigger] w[i].0 == a;
            assert(store.marks@[i].0@ == a);
            lemma_sorted_list(strs(store.marks@[i].1@));
        }
    }
    let c = snapshot_of(v);
    assert(keys_inc(c) && tmap(c) == snap_map(v));
    lemma_tmap_unique(c, w);
}

/// Rebuilding from entries denotes the same maps as the entries do.
pub proof fn lemma_restore_tmap(s: Seq<(Seq<char>, (Seq<char>, Seq<char>, Seq<Seq<char>>))>)
    requires
        forall|i: int| 0 <= i < s.len() ==> (#[trigger] s[i]).1.2.len() > 0,
    ensures
        restore(s).identity == tmap(
            s.map_values(
                |e: (Seq<char>, (Seq<char>, Seq<char>, Seq<Seq<char>>))| (e.0, (e.1.0, e.1.1)),
            ),
        ),
        restore(s).marks == tmap(
            s.map_values(
                |e: (Seq<char>, (Seq<char>, Seq<char>, Seq<Seq<char>>))| (e.0, e.1.2.to_set()),
            ),
        ),
    decreases s.len(),
{
    let fi = |e: (Seq<char>, (Seq<char>, Seq<char>, Seq<Seq<char>>))| (e.0, (e.1.0, e.1.1));
    let fm = |e: (Seq<char>, (Seq<char>, Seq<char>, Seq<Seq<char>>))| (e.0, e.1.2.to_set());
    if s.len() > 0 {
        let t = s.drop_last();
        assert forall|i: int| 0 <= i < t.len() implies (#[trigger] t[i]).1.2.len() > 0 by {
            assert(t[i] == s[i]);
        }
        lemma_restore_tmap(t);
        assert(s.map_values(fi).drop_last() =~= t.map_values(fi));
        assert(s.map_values(fm).drop_last() =~= t.map_values(fm));
        assert(s[s.len() - 1].1.2.len() > 0);
    } else {
        assert(s.map_values(fi) =~= Seq::empty());
        assert(s.map_values(fm) =~= Seq::empty());
    }
}

impl MarksStore {
    /// Set the marks of `addr` to the (non-empty, increasing) list `l`.
    fn set_marks(&mut self, addr: &str, l: Vec<String>)
        requires
            old(self).wf(),
            increasing(strs(l@)),
            l@.len() > 0,
        ensures
            final(self).wf(),
            final(self)@ == (MarksView {
                identity: old(self)@.identity,
                marks: old(self)@.marks.insert(addr@, strs(l@).to_set()),
            }),
    {
        proof {
            lemma_set_pairs(self.marks@);
        }
        let (found, p) = locate(&self.marks, addr);
        let ghost old_marks = self.marks@;
        let ghost v0 = self@;
        if found {
            let (k, _old_list) = self.marks.remove(p);
            self.marks.insert(p, (k, l));
            proof {
                assert(self.marks@ =~= old_marks.update(p as int, (k, l)));
                assert(set_pairs(self.marks@) =~= set_pairs(old_marks).update(
                    p as int,
                    (set_pairs(old_marks)[p as int].0, strs(l@).to_set()),
                ));
                lemma_tmap_update(set_pairs(old_marks), p as int, strs(l@).to_set());
                assert forall|i: int, j: int|
                    0 <= i < j < self.marks@.len() implies str_lt(
                    #[trigger] self.marks@[i].0@,
                    #[trigger] self.marks@[j].0@,
                ) by {
                    assert(self.marks@[i].0 == old_marks[i].0);
                    assert(self.marks@[j].0 == old_marks[j].0);
                }
                assert forall|i: int| 0 <= i < self.marks@.len() implies increasing(
                    strs(#[trigger] self.marks@[i].1@),
                ) && self.marks@[i].1@.len() > 0 by {
                    if i != p {
                        assert(self.marks@[i] == old_marks[i]);
                    }
                }
            }
        } else {
            let ghost lv = strs(l@).to_set();
            self.marks.insert(p, (String::from_str(addr), l));
            proof {
                assert(set_pairs(self.marks@) =~= set_pairs(old_marks).insert(
                    p as int,
                    (addr@, lv),
                ));
                lemma_tmap_insert(set_pairs(old_marks), p as int, addr@, lv);
                assert forall|i: int, j: int|
                    0 <= i < j < self.marks@.len() implies str_lt(
                    #[trigger] self.marks@[i].0@,
                    #[trigger] self.marks@[j].0@,
                ) by {
                    assert(set_pairs(self.marks@)[i].0 == self.marks@[i].0@);
                    assert(set_pairs(self.marks@)[j].0 == self.marks@[j].0@);
                }
                assert forall|i: int| 0 <= i < self.marks@.len() implies increasing(
                    strs(#[trigger] self.marks@[i].1@),
                ) && self.marks@[i].1@.len() > 0 by {
                    if i < p {
                        assert(self.marks@[i] == old_marks[i]);
                    } else if i > p {
                        assert(self.marks@[i] == old_marks[i - 1]);
                    }
                }
            }
        }
        proof {
            assert(self@.marks =~= v0.marks.insert(addr@, strs(l@).to_set()));
        }
    }

    /// Serialize the live store into a snapshot (only windows that
    /// actually carry marks are persisted), in address order.
    pub fn to_snapshot(&self) -> (snap: MarksSnapshot)
        requires
            self.wf(),
        ensures
            snap@ == snapshot_of(self@),
    {
        proof {
            lemma_id_pairs(self.identity@);
            lemma_snapshot_witness(*self);
        }
        let ghost v = self@;
        let mut out: Vec<(String, SnapshotEntry)> = Vec::new();
        let mut i: usize = 0;
        while i < self.marks.len()
            invariant
                self.wf(),
                v == self@,
                i <= self.marks.len(),
                out.len() == i,
                forall|k: int|
                    0 <= k < i ==> (MarksSnapshot { windows: out }@)[k] == #[trigger] snap_witness(
                        *self,
                    )[k],
            decreases self.marks.len() - i,
        {
            proof {
                lemma_id_pairs(self.identity@);
            }
            let addr = &self.marks[i].0;
            let (found, p) = locate(&self.identity, addr.as_str());
            let (class, title) = if found {
                (self.identity[p].1.class.clone(), self.identity[p].1.title.clone())
            } else {
                (String::new(), String::new())
            };
            let marks = copy_strings(&self.marks[i].1);
            let ghost old_out = out@;
            out.push((addr.clone(), SnapshotEntry { class, title, marks }));
            proof {
                assert forall|k: int| 0 <= k < i + 1 implies (MarksSnapshot {
                    windows: out,
                }@)[k] == #[trigger] snap_witness(*self)[k] by {
                    if k < i {
                        assert(out@[k] == old_out[k]);
                    }
                }
            }
            i += 1;
        }
        let snap = MarksSnapshot { windows: out };
        assert(snap@ =~= snap_witness(*self));
        snap
    }

    /// Rebuild a store from a snapshot, taking its entries in order.
    pub fn from_snapshot(snap: &MarksSnapshot) -> (store: Self)
        ensures
            store.wf(),
            store@ == restore(snap@),
    {
        let mut store = MarksStore::new();
        let mut i: usize = 0;
        assert(snap@.take(0) =~= Seq::empty());
        assert(store@ == restore(snap@.take(0)));
        while i < snap.windows.len()
            invariant
                i <= snap.windows.len(),
                store.wf(),
                store@ == restore(snap@.take(i as int)),
            decreases snap.windows.len() - i,
        {
            let addr = &snap.windows[i].0;
            let entry = &snap.windows[i].1;
            let ghost before = store@;
            store.note_window(addr.as_str(), entry.class.as_str(), entry.title.as_str());
            if entry.marks.len() > 0 {
                let l = sorted_unique(&entry.marks);
                assert(strs(entry.marks@).contains(strs(entry.marks@)[0]));
                assert(strs(entry.marks@).to_set().contains(strs(entry.marks@)[0]));
                assert(strs(l@).len() > 0);
                store.set_marks(addr.as_str(), l);
            }
            proof {
                assert(snap@.take(i + 1).drop_last() =~= snap@.take(i as int));
                assert(snap@.take(i + 1).last() == snap@[i as int]);
            }
            i += 1;
        }
        assert(snap@.take(snap.windows.len() as int) =~= snap@);
        store
    }
}

// ───────────────────────── laws ─────────────────────────

/// Adding a mark twice is the same as adding it once, and the second add
/// reports no change.
pub proof fn law_add_mark_idempotent(store: MarksStore, addr: Seq<char>, mark: Seq<char>)
    requires
        store.wf(),
    ensures
        !add_changes(after_add(store@, addr, mark), addr, mark),
        after_add(after_add(store@, addr, mark), addr, mark) == after_add(store@, addr, mark),
{
}

/// After a (non-empty) mark is added, the window lists it.
pub proof fn law_added_mark_is_listed(store: MarksStore, addr: Seq<char>, mark: Seq<char>)
    requires
        store.wf(),
        mark.len() > 0,
    ensures
        marks_at(after_add(store@, addr, mark), addr).contains(mark),
{
}

/// Removing a mark that an add has just put on a window gives back the
/// store as it was before the add.
pub proof fn law_remove_undoes_add(store: MarksStore, addr: Seq<char>, mark: Seq<char>)
    requires
        store.wf(),
        add_changes(store@, addr, mark),
    ensures
        after_remove(after_add(store@, addr, mark), addr, mark) == store@,
{
    store.lemma_wf();
    let v = store@;
    let s0 = marks_at(v, addr);
    let w = after_add(v, addr, mark);
    assert(marks_at(w, addr) == s0.insert(mark));
    assert(s0.insert(mark).remove(mark) =~= s0);
    if v.marks.contains_key(addr) {
        assert(s0 != Set::<Seq<char>>::empty());
        assert(after_remove(w, addr, mark).marks =~= v.marks);
    } else {
        assert(s0 =~= Set::<Seq<char>>::empty());
        assert(after_remove(w, addr, mark).marks =~= v.marks);
    }
}

/// A window's marks are listed in strictly increasing order — sorted and
/// free of duplicates — and the listing holds exactly the marks it
/// carries.
pub proof fn law_listed_marks_sorted(store: MarksStore, addr: Seq<char>)
    requires
        store.wf(),
    ensures
        increasing(sorted_list(marks_at(store@, addr))),
        sorted_list(marks_at(store@, addr)).to_set() == marks_at(store@, addr),
{
    lemma_set_pairs(store.marks@);
    if store@.marks.contains_key(addr) {
        let i = choose|i: int| 0 <= i < store.marks@.len() && #[trigger] store.marks@[i].0@ == addr;
        let l = strs(store.marks@[i].1@);
        lemma_sorted_list(l);
    } else {
        let e = Seq::<Seq<char>>::empty();
        assert(e.to_set() =~= Set::<Seq<char>>::empty());
        lemma_sorted_list(e);
    }
}

/// A dropped window carries no marks and is matched by no mark.
pub proof fn law_drop_window_forgets(store: MarksStore, addr: Seq<char>, mark: Seq<char>)
    requires
        store.wf(),
    ensures
        marks_at(after_drop(store@, addr), addr) == Set::<Seq<char>>::empty(),
        !marked_with(after_drop(store@, addr), mark).contains(addr),
        !after_drop(store@, addr).identity.contains_key(addr),
{
}

proof fn lemma_snapshot_lists_nonempty(store: MarksStore)
    requires
        store.wf(),
    ensures
        forall|i: int|
            0 <= i < snapshot_of(store@).len() ==> (#[trigger] snapshot_of(store@)[i]).1.2.len()
                > 0,
{
    lemma_snapshot_witness(store);
    assert forall|i: int| 0 <= i < snapshot_of(store@).len() implies (#[trigger] snapshot_of(
        store@,
    )[i]).1.2.len() > 0 by {
        assert(snap_witness(store)[i].1.2 == strs(store.marks@[i].1@));
    }
}

/// Restoring a store from its own snapshot gives back every window's
/// marks, and the identity of every marked window.
pub proof fn law_restore_snapshot_keeps_marks(store: MarksStore)
    requires
        store.wf(),
    ensures
        restore(snapshot_of(store@)).marks == store@.marks,
        forall|a: Seq<char>|
            #[trigger] store@.marks.contains_key(a) ==> restore(snapshot_of(store@)).identity[a]
                == ident_or_empty(store@, a),
{
    let v = store@;
    let s = snapshot_of(v);
    store.lemma_wf();
    lemma_snapshot_witness(store);
    lemma_snapshot_lists_nonempty(store);
    lemma_restore_tmap(s);
    let fi = |e: (Seq<char>, (Seq<char>, Seq<char>, Seq<Seq<char>>))| (e.0, (e.1.0, e.1.1));
    let fm = |e: (Seq<char>, (Seq<char>, Seq<char>, Seq<Seq<char>>))| (e.0, e.1.2.to_set());
    let si = s.map_values(fi);
    let sm = s.map_values(fm);
    lemma_tmap(s);
    assert forall|i: int, j: int| 0 <= i < j < sm.len() implies str_lt(
        #[trigger] sm[i].0,
        #[trigger] sm[j].0,
    ) by {
        assert(sm[i].0 == s[i].0 && sm[j].0 == s[j].0);
    }
    assert forall|i: int, j: int| 0 <= i < j < si.len() implies str_lt(
        #[trigger] si[i].0,
        #[trigger] si[j].0,
    ) by {
        assert(si[i].0 == s[i].0 && si[j].0 == s[j].0);
    }
    lemma_tmap(sm);
    lemma_tmap(si);
    assert(tmap(sm) =~= v.marks) by {
        assert forall|a: Seq<char>| #[trigger] tmap(sm).contains_key(a) <==> v.marks.contains_key(
            a,
        ) by {
            if has_key(sm, a) {
                let i = choose|i: int| 0 <= i < sm.len() && #[trigger] sm[i].0 == a;
                assert(s[i].0 == a);
                assert(has_key(s, a));
                assert(tmap(s).contains_key(a));
                assert(snap_map(v).contains_key(a));
            }
            if v.marks.contains_key(a) {
                assert(snap_map(v).contains_key(a));
                assert(tmap(s).contains_key(a));
                let i = choose|i: int| 0 <= i < s.len() && #[trigger] s[i].0 == a;
                assert(sm[i].0 == a);
            }
        }
        assert forall|a: Seq<char>| #[trigger] tmap(sm).contains_key(a) implies tmap(sm)[a]
            == v.marks[a] by {
            let i = choose|i: int| 0 <= i < sm.len() && #[trigger] sm[i].0 == a;
            assert(s[i].0 == a);
            assert(tmap(s)[a] == s[i].1);
            let l = sorted_list(v.marks[a]);
            let j = choose|j: int|
                0 <= j < store.marks@.len() && #[trigger] store.marks@[j].0@ == a;
            lemma_set_pairs(store.marks@);
            lemma_sorted_list(strs(store.marks@[j].1@));
            assert(l.to_set() == v.marks[a]);
        }
    }
    assert forall|a: Seq<char>| #[trigger] v.marks.contains_key(a) implies restore(s).identity[a]
        == ident_or_empty(v, a) by {
        assert(tmap(s).contains_key(a));
        let i = choose|i: int| 0 <= i < s.len() && #[trigger] s[i].0 == a;
        assert(si[i].0 == a);
    }
}

/// Snapshotting a store rebuilt from a snapshot gives the same snapshot.
pub proof fn law_snapshot_is_stable(store: MarksStore)
    requires
        store.wf(),
    ensures
        snapshot_of(restore(snapshot_of(store@))) == snapshot_of(store@),
{
    let v = store@;
    let w = restore(snapshot_of(v));
    law_restore_snapshot_keeps_marks(store);
    assert(snap_map(w) =~= snap_map(v)) by {
        assert forall|a: Seq<char>| #[trigger] snap_map(w).contains_key(a) implies snap_map(w)[a]
            == snap_map(v)[a] by {
            assert(v.marks.contains_key(a));
            assert(w.identity[a] == ident_or_empty(v, a));
            assert(w.identity.contains_key(a)) by {
                lemma_snapshot_witness(store);
                lemma_snapshot_lists_nonempty(store);
                lemma_restore_tmap(snapshot_of(v));
                let s = snapshot_of(v);
                lemma_tmap(s);
                assert(tmap(s).contains_key(a));
                let i = choose|i: int| 0 <= i < s.len() && #[trigger] s[i].0 == a;
                let si = s.map_values(
                    |e: (Seq<char>, (Seq<char>, Seq<char>, Seq<Seq<char>>))| (e.0, (e.1.0, e.1.1)),
                );
                assert(si[i].0 == a);
                assert(si.drop_last().len() + 1 == si.len());
                lemma_tmap_contains(si, i);
            }
        }
    }
}

/// Every pair's key is in the map a sequence of pairs denotes.
proof fn lemma_tmap_contains<V>(s: Seq<(Seq<char>, V)>, i: int)
    requires
        0 <= i < s.len(),
    ensures
        tmap(s).contains_key(s[i].0),
    decreases s.len(),
{
    if i < s.len() - 1 {
        lemma_tmap_contains(s.drop_last(), i);
        assert(s.drop_last()[i] == s[i]);
    }
}

} // verus!
