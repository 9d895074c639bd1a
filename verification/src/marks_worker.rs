//! The mark-state worker's decisions, one input at a time. The loop that
//! drives it (the compositor event stream, the Bus poll and snapshot
//! timers, the persist layer) hands each input to [`MarksWorkerState::step`]
//! and performs the actions it returns, in order.
use vstd::prelude::*;
use crate::marks::{
    MarksStore, MarksView, MarksSnapshot, empty_view, restore, snapshot_of, after_note,
    ident_or_empty, law_restore_snapshot_keeps_marks,
};
use crate::marks_bus::{
    WindowEvent, DeltaView, MarkRequest, dispatch_request, dispatched, delta_message, delta_topic, delta_text,
    handle_event, after_adds, add_deltas, deltas_view,
};
use crate::table::{sorted_keys, tmap, locate, lemma_tmap, lemma_tmap_insert, lemma_tmap_update, keys_inc, has_key, key_in};
use crate::order::{str_lt, strs};
use crate::text::concat;
use crate::tags::TagManifest;
use crate::auto_mark::auto_marks;
use crate::workspace::opt_manifests;

verus! {

/// The Bus topic that carries requests for `verb`.
pub open spec fn action_topic_of(verb: Seq<char>) -> Seq<char> {
    "action/marks/"@ + verb
}

/// The Bus topic that carries the reply to request `ulid`.
pub open spec fn reply_topic_of(ulid: Seq<char>) -> Seq<char> {
    "reply/"@ + ulid
}

/// `action/marks/<verb>`.
pub fn action_topic(verb: &str) -> (r: String)
    ensures
        r@ == action_topic_of(verb@),
{
    concat("action/marks/", verb)
}

/// `reply/<ulid>`.
pub fn reply_topic(ulid: &str) -> (r: String)
    ensures
        r@ == reply_topic_of(ulid@),
{
    concat("reply/", ulid)
}

/// The four verbs the responder serves, in the order they are polled.
pub fn action_verbs() -> (r: Vec<String>)
    ensures
        strs(r@) == seq!["add"@, "remove"@, "list"@, "match"@],
{
    let r = vec![
        String::from_str("add"),
        String::from_str("remove"),
        String::from_str("list"),
        String::from_str("match"),
    ];
    assert(strs(r@) =~= seq!["add"@, "remove"@, "list"@, "match"@]);
    r
}

/// What the worker is handed.
#[derive(Debug, Clone, PartialEq, Eq)]
pub enum MarksInput {
    /// A compositor event.
    Window(WindowEvent),
    /// The requests found on `action/marks/<verb>` past its cursor, oldest
    /// first, each as its ULID and its body read as the verb's request
    /// (`None` when the message had no body, or one that could not be read
    /// as the verb's request shape).
    Requests { verb: String, msgs: Vec<(String, Option<MarkRequest>)> },
    /// The snapshot timer fired.
    SnapshotTick,
    /// The worker is asked to stop.
    Shutdown,
}

/// What the worker asks its driver to do.
#[derive(Debug, PartialEq, Eq)]
pub enum MarksAction {
    /// Persist this snapshot of the store.
    SaveSnapshot(MarksSnapshot),
    /// Write `body` to Bus topic `topic`.
    Write { topic: String, body: String },
    /// Leave the loop.
    Stop,
}

/// An action as plain values.
pub enum ActionView {
    Save(Seq<(Seq<char>, (Seq<char>, Seq<char>, Seq<Seq<char>>))>),
    Write(Seq<char>, Seq<char>),
    Stop,
}

pub open spec fn action_view(a: MarksAction) -> ActionView {
    match a {
        MarksAction::SaveSnapshot(s) => ActionView::Save(s@),
        MarksAction::Write { topic, body } => ActionView::Write(topic@, body@),
        MarksAction::Stop => ActionView::Stop,
    }
}

pub open spec fn actions_view(s: Seq<MarksAction>) -> Seq<ActionView> {
    s.map_values(|a: MarksAction| action_view(a))
}

/// The write that publishes a delta.
pub open spec fn delta_write(d: DeltaView) -> ActionView {
    ActionView::Write(delta_topic(d.0), delta_text(d.0, d.1, d.2, d.3))
}

/// The store after a compositor event, and the deltas it publishes.
pub open spec fn on_event(v: MarksView, ev: WindowEvent, mf: Option<Seq<TagManifest>>) -> (
    MarksView,
    Seq<DeltaView>,
) {
    match ev {
        WindowEvent::Opened { addr, class, title } => {
            let v1 = after_note(v, addr@, class@, title@);
            let ms = auto_marks(class@, mf);
            (after_adds(v1, addr@, ms), add_deltas(v1, addr@, ms))
        },
        WindowEvent::Closed { addr } => (crate::marks::after_drop(v, addr@), Seq::empty()),
        WindowEvent::Focused { addr, class, title } => (
            after_note(v, addr@, class@, title@),
            Seq::empty(),
        ),
        WindowEvent::Other => (v, Seq::empty()),
    }
}

/// Serving requests `msgs` on verb `verb`, oldest first, against a store
/// holding `v`: the store afterwards, and the writes — for each request
/// its reply on `reply/<ulid>`, followed by the delta it publishes, if
/// any.
pub open spec fn served(v: MarksView, verb: Seq<char>, msgs: Seq<(String, Option<MarkRequest>)>) -> (
    MarksView,
    Seq<ActionView>,
)
    decreases msgs.len(),
{
    if msgs.len() == 0 {
        (v, Seq::empty())
    } else {
        let (v0, w0) = served(v, verb, msgs.drop_last());
        let (v1, reply, delta) = dispatched(v0, verb, msgs.last().1);
        let w1 = w0.push(ActionView::Write(reply_topic_of(msgs.last().0@), reply));
        (
            v1,
            match delta {
                Some(d) => w1.push(delta_write(d)),
                None => w1,
            },
        )
    }
}

/// The worker as plain values: the mark store, and for each action topic
/// the ULID of the last request served on it.
pub struct WorkerView {
    pub marks: MarksView,
    pub cursors: Map<Seq<char>, Seq<char>>,
}

/// The state the worker keeps between inputs.
pub struct MarksWorkerState {
    store: MarksStore,
    /// topic → last ULID served, in topic order.
    cursors: Vec<(String, String)>,
}

pub open spec fn cursor_pairs(v: Seq<(String, String)>) -> Seq<(Seq<char>, Seq<char>)> {
    v.map_values(|p: (String, String)| (p.0@, p.1@))
}

impl View for MarksWorkerState {
    type V = WorkerView;

    closed spec fn view(&self) -> WorkerView {
        WorkerView { marks: self.store@, cursors: tmap(cursor_pairs(self.cursors@)) }
    }
}

proof fn lemma_cursor_pairs(v: Seq<(String, String)>)
    requires
        sorted_keys(v),
    ensures
        keys_inc(cursor_pairs(v)),
        forall|k: Seq<char>| #[trigger] tmap(cursor_pairs(v)).contains_key(k) == key_in(v, k),
        forall|i: int| 0 <= i < v.len() ==> #[trigger] tmap(cursor_pairs(v))[v[i].0@] == v[i].1@,
{
    let s = cursor_pairs(v);
    assert forall|i: int, j: int| 0 <= i < j < s.len() implies str_lt(
        #[trigger] s[i].0,
        #[trigger] s[j].0,
    ) by {
        assert(s[i].0 == v[i].0@ && s[j].0 == v[j].0@);
    }
    assert forall|k: Seq<char>| has_key(s, k) == key_in(v, k) by {
        if has_key(s, k) {
            let i = choose|i: int| 0 <= i < s.len() && #[trigger] s[i].0 == k;
            assert(v[i].0@ == k);
        }
        if key_in(v, k) {
            let i = choose|i: int| 0 <= i < v.len() && #[trigger] v[i].0@ == k;
            assert(s[i].0 == k);
        }
    }
    lemma_tmap(s);
    assert forall|i: int| 0 <= i < v.len() implies #[trigger] tmap(s)[v[i].0@] == v[i].1@ by {
        assert(s[i].0 == v[i].0@);
    }
}

impl MarksWorkerState {
    /// Cursors in topic order; the store well formed.
    pub closed spec fn wf(&self) -> bool {
        self.store.wf() && sorted_keys(self.cursors@)
    }

    /// Start the worker: without a Bus to serve (`bus_ready` false) it
    /// stays idle (`None`); else its store is the saved snapshot restored,
    /// or empty when there is none, and no topic has a cursor yet.
    pub fn start(bus_ready: bool, snapshot: Option<&MarksSnapshot>) -> (r: Option<Self>)
        ensures
            r is Some <==> bus_ready,
            r matches Some(w) ==> w.wf() && w@.cursors == Map::<Seq<char>, Seq<char>>::empty()
                && w@.marks == match snapshot {
                Some(s) => restore(s@),
                None => empty_view(),
            },
    {
        if !bus_ready {
            return None;
        }
        let store = match snapshot {
            Some(s) => MarksStore::from_snapshot(s),
            None => MarksStore::new(),
        };
        let w = MarksWorkerState { store, cursors: Vec::new() };
        assert(cursor_pairs(w.cursors@) =~= Seq::empty());
        assert(w@.cursors =~= Map::<Seq<char>, Seq<char>>::empty());
        Some(w)
    }

    /// The ULID of the last request served on `action/marks/<verb>`, if
    /// any: the point to poll from.
    pub fn cursor_for(&self, verb: &str) -> (r: Option<String>)
        requires
            self.wf(),
        ensures
            r is Some <==> self@.cursors.contains_key(action_topic_of(verb@)),
            r matches Some(u) ==> u@ == self@.cursors[action_topic_of(verb@)],
    {
        proof {
            lemma_cursor_pairs(self.cursors@);
        }
        let topic = action_topic(verb);
        let (found, p) = locate(&self.cursors, topic.as_str());
        if found {
            Some(self.cursors[p].1.clone())
        } else {
            None
        }
    }

    /// Serve requests `msgs` on `verb`, oldest first: each is dispatched,
    /// answered on `reply/<ulid>`, and followed by the delta it publishes.
    fn serve(&mut self, verb: &str, msgs: &Vec<(String, Option<MarkRequest>)>) -> (out: Vec<
        MarksAction,
    >)
        requires
            old(self).wf(),
        ensures
            final(self).wf(),
            final(self)@.cursors == old(self)@.cursors,
            (final(self)@.marks, actions_view(out@)) == served(old(self)@.marks, verb@, msgs@),
    {
        let mut out: Vec<MarksAction> = Vec::new();
        let ghost v0 = self@;
        let mut i: usize = 0;
        assert(msgs@.take(0) =~= Seq::<(String, Option<MarkRequest>)>::empty());
        assert(actions_view(out@) =~= Seq::<ActionView>::empty());
        while i < msgs.len()
            invariant
                self.wf(),
                i <= msgs.len(),
                self@.cursors == v0.cursors,
                (self@.marks, actions_view(out@)) == served(v0.marks, verb@, msgs@.take(i as int)),
            decreases msgs.len() - i,
        {
            proof {
                assert(msgs@.take(i + 1).drop_last() =~= msgs@.take(i as int));
                assert(msgs@.take(i + 1).last() == msgs@[i as int]);
            }
            let req = match &msgs[i].1 {
                Some(r) => Some(r.duplicate()),
                None => None,
            };
            let outcome = dispatch_request(&mut self.store, verb, req);
            let ghost before = actions_view(out@);
            out.push(
                MarksAction::Write { topic: reply_topic(msgs[i].0.as_str()), body: outcome.reply_json },
            );
            assert(actions_view(out@) =~= before.push(
                ActionView::Write(reply_topic_of(msgs@[i as int].0@), outcome.reply_json@),
            ));
            match outcome.delta {
                Some(d) => {
                    let (topic, text) = delta_message(d.0.as_str(), d.1.as_str(), d.2.as_str(), &d.3);
                    let ghost mid = actions_view(out@);
                    out.push(MarksAction::Write { topic, body: text });
                    assert(actions_view(out@) =~= mid.push(
                        delta_write((d.0@, d.1@, d.2@, strs(d.3@))),
                    ));
                },
                None => {},
            }
            i += 1;
        }
        assert(msgs@.take(msgs.len() as int) =~= msgs@);
        out
    }

    /// Take one input and say what to do about it.
    ///
    /// * a compositor event updates the store; each delta it publishes is
    ///   written to `event/marks/<addr>`;
    /// * requests on a verb are served in order (see [`served`]), and the
    ///   topic's cursor moves to the last one;
    /// * the snapshot timer saves a snapshot of the store;
    /// * shutdown saves a snapshot and stops.
    pub fn step(&mut self, input: MarksInput, manifests: Option<&[TagManifest]>) -> (out: Vec<
        MarksAction,
    >)
        requires
            old(self).wf(),
        ensures
            final(self).wf(),
            match input {
                MarksInput::Window(ev) => {
                    let (v1, ds) = on_event(old(self)@.marks, ev, opt_manifests(manifests));
                    &&& final(self)@.marks == v1
                    &&& final(self)@.cursors == old(self)@.cursors
                    &&& actions_view(out@) == ds.map_values(|d: DeltaView| delta_write(d))
                },
                MarksInput::Requests { verb, msgs } => {
                    &&& (final(self)@.marks, actions_view(out@)) == served(
                        old(self)@.marks,
                        verb@,
                        msgs@,
                    )
                    &&& final(self)@.cursors == if msgs@.len() == 0 {
                        old(self)@.cursors
                    } else {
                        old(self)@.cursors.insert(action_topic_of(verb@), msgs@.last().0@)
                    }
                },
                MarksInput::SnapshotTick => {
                    &&& final(self)@ == old(self)@
                    &&& actions_view(out@) == seq![ActionView::Save(snapshot_of(old(self)@.marks))]
                },
                MarksInput::Shutdown => {
                    &&& final(self)@ == old(self)@
                    &&& actions_view(out@) == seq![
                        ActionView::Save(snapshot_of(old(self)@.marks)),
                        ActionView::Stop,
                    ]
                },
            },
    {
        match input {
            MarksInput::Window(ev) => {
                let ds = handle_event(&mut self.store, &ev, manifests);
                let mut out: Vec<MarksAction> = Vec::new();
                let mut i: usize = 0;
                while i < ds.len()
                    invariant
                        i <= ds.len(),
                        actions_view(out@) == deltas_view(ds@).take(i as int).map_values(
                            |d: DeltaView| delta_write(d),
                        ),
                    decreases ds.len() - i,
                {
                    let (topic, text) = delta_message(
                        ds[i].0.as_str(),
                        ds[i].1.as_str(),
                        ds[i].2.as_str(),
                        &ds[i].3,
                    );
                    let ghost before = actions_view(out@);
                    out.push(MarksAction::Write { topic, body: text });
                    assert(actions_view(out@) =~= deltas_view(ds@).take(i + 1).map_values(
                        |d: DeltaView| delta_write(d),
                    )) by {
                        assert(actions_view(out@) =~= before.push(
                            delta_write(deltas_view(ds@)[i as int]),
                        ));
                    }
                    i += 1;
                }
                assert(deltas_view(ds@).take(ds.len() as int) =~= deltas_view(ds@));
                out
            },
            MarksInput::Requests { verb, msgs } => {
                let out = self.serve(verb.as_str(), &msgs);
                if msgs.len() > 0 {
                    let topic = action_topic(verb.as_str());
                    let last = msgs.len() - 1;
                    self.set_cursor(topic.as_str(), msgs[last].0.as_str());
                }
                out
            },
            MarksInput::SnapshotTick => {
                let snap = self.store.to_snapshot();
                let out = vec![MarksAction::SaveSnapshot(snap)];
                assert(actions_view(out@) =~= seq![ActionView::Save(snapshot_of(self@.marks))]);
                out
            },
            MarksInput::Shutdown => {
                let snap = self.store.to_snapshot();
                let out = vec![MarksAction::SaveSnapshot(snap), MarksAction::Stop];
                assert(actions_view(out@) =~= seq![
                    ActionView::Save(snapshot_of(self@.marks)),
                    ActionView::Stop,
                ]);
                out
            },
        }
    }

    fn set_cursor(&mut self, topic: &str, ulid: &str)
        requires
            old(self).wf(),
        ensures
            final(self).wf(),
            final(self)@.marks == old(self)@.marks,
            final(self)@.cursors == old(self)@.cursors.insert(topic@, ulid@),
    {
        proof {
            lemma_cursor_pairs(self.cursors@);
        }
        let (found, p) = locate(&self.cursors, topic);
        let ghost old_c = self.cursors@;
        if found {
            let (k, _u) = self.cursors.remove(p);
            self.cursors.insert(p, (k, String::from_str(ulid)));
            proof {
                assert(cursor_pairs(self.cursors@) =~= cursor_pairs(old_c).update(
                    p as int,
                    (cursor_pairs(old_c)[p as int].0, ulid@),
                ));
                lemma_tmap_update(cursor_pairs(old_c), p as int, ulid@);
                assert forall|i: int, j: int| 0 <= i < j < self.cursors@.len() implies str_lt(
                    #[trigger] self.cursors@[i].0@,
                    #[trigger] self.cursors@[j].0@,
                ) by {
                    assert(self.cursors@[i].0 == old_c[i].0);
                    assert(self.cursors@[j].0 == old_c[j].0);
                }
            }
        } else {
            self.cursors.insert(p, (String::from_str(topic), String::from_str(ulid)));
            proof {
                assert(cursor_pairs(self.cursors@) =~= cursor_pairs(old_c).insert(
                    p as int,
                    (topic@, ulid@),
                ));
                lemma_tmap_insert(cursor_pairs(old_c), p as int, topic@, ulid@);
                assert forall|i: int, j: int| 0 <= i < j < self.cursors@.len() implies str_lt(
                    #[trigger] self.cursors@[i].0@,
                    #[trigger] self.cursors@[j].0@,
                ) by {
                    assert(cursor_pairs(self.cursors@)[i].0 == self.cursors@[i].0@);
                    assert(cursor_pairs(self.cursors@)[j].0 == self.cursors@[j].0@);
                }
            }
        }
    }
}

/// A worker restarted from the snapshot it saved (on the timer or on
/// shutdown) carries every window's marks it had, and the identity of
/// every marked window.
pub proof fn law_restart_keeps_marks(w: MarksWorkerState)
    requires
        w.wf(),
    ensures
        restore(snapshot_of(w@.marks)).marks == w@.marks.marks,
        forall|a: Seq<char>|
            #[trigger] w@.marks.marks.contains_key(a) ==> restore(snapshot_of(w@.marks)).identity[a]
                == ident_or_empty(w@.marks, a),
{
    law_restore_snapshot_keeps_marks(w.store);
}

} // verus!
