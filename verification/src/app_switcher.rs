//! The Alt+Tab window switcher: which windows of the compositor's tree it
//! lists, the card title it shows for each, and how the selection moves
//! as keys arrive.
use vstd::prelude::*;
use vstd::string::*;
use crate::text::{lines_of, lines_chars, chars_of, string_of, slice_of, concat, fmt_u64, dec};
use vstd::arithmetic::div_mod::{lemma_small_mod, lemma_mod_multiples_vanish};

verus! {

// ───────────────────────── tree walk ─────────────────────────

/// One window card: the compositor's container id, the window's app id
/// and its title.
#[derive(Debug, Clone, PartialEq, Eq)]
pub struct WindowCard {
    pub con_id: u64,
    pub app_id: String,
    pub title: String,
}

/// One node of the compositor's `get_tree` answer, holding the fields the
/// switcher reads.
#[derive(Debug)]
pub struct SwayNode {
    /// `name`, when it is a string.
    pub name: Option<String>,
    /// `pid` is present and not null (the node is a real window).
    pub has_pid: bool,
    /// `id`, when it is an unsigned integer.
    pub id: Option<u64>,
    /// `app_id`, when it is a string.
    pub app_id: Option<String>,
    /// `window_properties.class`, when it is a string (XWayland windows).
    pub window_class: Option<String>,
    /// Tiled children.
    pub nodes: Vec<SwayNode>,
    /// Floating children.
    pub floating_nodes: Vec<SwayNode>,
}

/// The characters of an optional string, or nothing.
pub open spec fn or_empty(o: Option<String>) -> Seq<char> {
    match o {
        Some(s) => s@,
        None => Seq::empty(),
    }
}

/// The name of the scratchpad workspace, whose windows are minimised.
pub open spec fn scratch_name() -> Seq<char> {
    "__i3_scratch"@
}

/// Node `n` is a window the switcher lists (outside the scratchpad).
pub open spec fn lists_node(n: SwayNode, entering_scratch: bool) -> bool {
    !entering_scratch && n.has_pid && match n.id {
        Some(i) => i != 0,
        None => false,
    }
}

/// What a card shows: container id, app id, title.
pub type CardView = (u64, Seq<char>, Seq<char>);

/// The view of a card.
pub open spec fn card_view(c: WindowCard) -> CardView {
    (c.con_id, c.app_id@, c.title@)
}

/// The views of a list of cards.
pub open spec fn cards_view(cs: Seq<WindowCard>) -> Seq<CardView> {
    cs.map_values(|c: WindowCard| card_view(c))
}

/// The card of window node `n`: its app id, else its X11 class.
pub open spec fn card_of(n: SwayNode) -> CardView {
    (
        match n.id {
            Some(i) => i,
            None => 0,
        },
        match n.app_id {
            Some(a) => a@,
            None => or_empty(n.window_class),
        },
        or_empty(n.name),
    )
}

/// The cards of the windows under `n`, in tree order (a node before its
/// tiled children, those before its floating children).
pub open spec fn walk_spec(n: SwayNode, inside_scratch: bool) -> Seq<CardView>
    decreases n, 1int,
{
    let entering = inside_scratch || or_empty(n.name) == scratch_name();
    let own = if lists_node(n, entering) {
        seq![card_of(n)]
    } else {
        Seq::empty()
    };
    own + walk_list(n.nodes@, entering) + walk_list(n.floating_nodes@, entering)
}

/// The cards of the windows under each node of `ns`, in order.
pub open spec fn walk_list(ns: Seq<SwayNode>, inside_scratch: bool) -> Seq<CardView>
    decreases ns, 0int,
{
    if ns.len() == 0 {
        Seq::empty()
    } else {
        walk_spec(ns[0], inside_scratch) + walk_list(ns.drop_first(), inside_scratch)
    }
}

fn or_empty_string(o: &Option<String>) -> (r: String)
    ensures
        r@ == or_empty(*o),
{
    match o {
        Some(s) => s.clone(),
        None => String::new(),
    }
}

/// Append to `out` the cards of the windows under `node`.
fn walk(node: &SwayNode, out: &mut Vec<WindowCard>, inside_scratch: bool)
    ensures
        cards_view(final(out)@) == cards_view(old(out)@) + walk_spec(*node, inside_scratch),
    decreases node, 1int,
{
    let name = or_empty_string(&node.name);
    let scratch = "__i3_scratch";
    let entering = inside_scratch || crate::order::string_eq(name.as_str(), scratch);
    let ghost start = cards_view(out@);
    if !entering && node.has_pid {
        let con_id: u64 = match node.id {
            Some(i) => i,
            None => 0,
        };
        if con_id != 0 {
            let app_id = match &node.app_id {
                Some(a) => a.clone(),
                None => or_empty_string(&node.window_class),
            };
            let ghost before = cards_view(out@);
            out.push(WindowCard { con_id, app_id, title: name });
            assert(cards_view(out@) =~= before.push(card_of(*node)));
        }
    }
    assert(cards_view(out@) == start + if lists_node(*node, entering) {
        seq![card_of(*node)]
    } else {
        Seq::<CardView>::empty()
    });
    walk_children(&node.nodes, out, entering);
    walk_children(&node.floating_nodes, out, entering);
}

/// Append to `out` the cards of the windows under each of `ns`.
fn walk_children(ns: &Vec<SwayNode>, out: &mut Vec<WindowCard>, inside_scratch: bool)
    ensures
        cards_view(final(out)@) == cards_view(old(out)@) + walk_list(ns@, inside_scratch),
    decreases ns@, 0int,
{
    let n = ns.len();
    let mut i: usize = 0;
    let ghost start = cards_view(out@);
    assert(ns@.subrange(0, n as int) =~= ns@);
    assert(walk_list(ns@.subrange(0, 0), inside_scratch) =~= Seq::<CardView>::empty());
    while i < n
        invariant
            n == ns.len(),
            i <= n,
            start + walk_list(ns@, inside_scratch) == cards_view(out@) + walk_list(
                ns@.subrange(i as int, n as int),
                inside_scratch,
            ),
        decreases n - i,
    {
        let ghost rest = ns@.subrange(i as int, n as int);
        assert(rest.drop_first() =~= ns@.subrange(i + 1, n as int));
        assert(rest[0] == ns@[i as int]);
        let ghost before = cards_view(out@);
        walk(&ns[i], out, inside_scratch);
        assert(before + walk_list(rest, inside_scratch) =~= cards_view(out@) + walk_list(
            rest.drop_first(),
            inside_scratch,
        ));
        i += 1;
    }
    assert(ns@.subrange(n as int, n as int) =~= Seq::<SwayNode>::empty());
    assert(cards_view(out@) + walk_list(Seq::<SwayNode>::empty(), inside_scratch) =~= cards_view(out@));
}

/// `serde_json::Value`, carried through the tree conversion.
#[verifier::external_type_specification]
#[verifier::external_body]
pub struct ExJsonValue(serde_json::Value);

/// The node tree `serde_json` reads from the `get_tree` text `raw`, each
/// JSON node converted field for field into a [`SwayNode`]; `None` when
/// `raw` is not JSON.
pub uninterp spec fn json_sway_tree(raw: Seq<char>) -> Option<SwayNode>;

/// `Value::get(key)` then `Value::as_str`, owned.
#[verifier::external_body]
fn str_at(v: &serde_json::Value, key: &str) -> Option<String> {
    v.get(key).and_then(serde_json::Value::as_str).map(str::to_string)
}

/// `Value::get(key)` then `Value::as_array`, each element converted.
#[verifier::external_body]
fn children_at(v: &serde_json::Value, key: &str) -> Vec<SwayNode> {
    match v.get(key).and_then(serde_json::Value::as_array) {
        Some(a) => a.iter().map(node_of).collect(),
        None => Vec::new(),
    }
}

/// One JSON node as a [`SwayNode`], field for field: `name`, `pid`
/// (present and not null), `id` (`Value::as_u64`), `app_id`,
/// `window_properties.class` (`Value::pointer`), and the two child
/// arrays.
#[verifier::external_body]
fn node_of(v: &serde_json::Value) -> SwayNode {
    SwayNode {
        name: str_at(v, "name"),
        has_pid: v.get("pid").is_some_and(|p| !p.is_null()),
        id: v.get("id").and_then(serde_json::Value::as_u64),
        app_id: str_at(v, "app_id"),
        window_class: v.pointer("/window_properties/class").and_then(serde_json::Value::as_str).map(
            str::to_string,
        ),
        nodes: children_at(v, "nodes"),
        floating_nodes: children_at(v, "floating_nodes"),
    }
}

/// `serde_json::from_str::<serde_json::Value>` on `raw`, converted into a
/// node tree. The contract names the tree (`json_sway_tree`).
#[verifier::external_body]
fn sway_tree(raw: &str) -> (r: Option<SwayNode>)
    ensures
        r == json_sway_tree(raw@),
{
    match serde_json::from_str::<serde_json::Value>(raw) {
        Ok(v) => Some(node_of(&v)),
        Err(_) => None,
    }
}

/// The switcher's cards for the compositor's `get_tree` JSON text: every
/// real window (a node with a pid and a non-zero id) outside the
/// scratchpad, in tree order; none for text that is not JSON.
pub fn parse_tree(raw: &str) -> (r: Vec<WindowCard>)
    ensures
        match json_sway_tree(raw@) {
            Some(t) => cards_view(r@) == walk_spec(t, false),
            None => r@.len() == 0,
        },
{
    match sway_tree(raw) {
        Some(t) => collect_windows(&t),
        None => Vec::new(),
    }
}

/// Every real window of the tree rooted at `root` (a node with a pid and
/// a non-zero id), outside the scratchpad, in tree order.
pub fn collect_windows(root: &SwayNode) -> (r: Vec<WindowCard>)
    ensures
        cards_view(r@) == walk_spec(*root, false),
{
    let mut out: Vec<WindowCard> = Vec::new();
    assert(cards_view(out@) =~= Seq::<CardView>::empty());
    walk(root, &mut out, false);
    assert(cards_view(out@) =~= walk_spec(*root, false));
    out
}

// ───────────────────────── card titles ─────────────────────────

/// Longest card title, in characters.
pub const CARD_TITLE_MAX: usize = 22;

/// The first line of `s` (all of `s` when it has no line).
pub open spec fn first_line(s: Seq<char>) -> Seq<char> {
    if lines_of(s).len() > 0 {
        lines_of(s)[0]
    } else {
        s
    }
}

/// The title a card shows: the first line, cut to 21 characters and an
/// ellipsis when longer than 22.
pub open spec fn card_title(s: Seq<char>) -> Seq<char> {
    let l = first_line(s);
    if l.len() <= CARD_TITLE_MAX {
        l
    } else {
        l.take(CARD_TITLE_MAX as int - 1).push('…')
    }
}

/// The first line of `s`, capped at 22 characters (21 and `…` when
/// longer).
pub fn truncate_for_card(s: &str) -> (r: String)
    ensures
        r@ == card_title(s@),
        r@.len() <= CARD_TITLE_MAX,
{
    let v = chars_of(s);
    let ls = lines_chars(v.as_slice());
    proof {
        assert(crate::text::views(ls@).len() == ls@.len());
    }
    let line = if ls.len() > 0 {
        assert(crate::text::views(ls@)[0] == ls@[0]@);
        slice_of(ls[0].as_slice(), 0, ls[0].len())
    } else {
        slice_of(v.as_slice(), 0, v.len())
    };
    assert(line@ =~= first_line(s@));
    if line.len() <= CARD_TITLE_MAX {
        return string_of(line.as_slice());
    }
    let mut cut = slice_of(line.as_slice(), 0, CARD_TITLE_MAX - 1);
    cut.push('…');
    assert(cut@ =~= line@.take(CARD_TITLE_MAX as int - 1).push('…'));
    string_of(cut.as_slice())
}

// ───────────────────────── selection ─────────────────────────

/// What the switcher reacts to.
#[derive(Debug, Clone, Copy, PartialEq, Eq, Structural)]
pub enum Message {
    /// Tab pressed — advance selection.
    Next,
    /// Shift+Tab pressed — reverse selection.
    Prev,
    /// Enter pressed OR card clicked — focus the selected window.
    Commit,
    /// Esc pressed — close without changing focus.
    Cancel,
    /// Direct click on card N.
    Select(usize),
}

/// What the caller does after an update: keep the switcher open, or
/// close it, first focusing the given window if there is one.
#[derive(Debug, Clone, Copy, PartialEq, Eq, Structural)]
pub enum SwitcherAction {
    Stay,
    Close(Option<u64>),
}

/// The switcher: the listed windows and the selected one.
#[derive(Debug)]
pub struct App {
    pub cards: Vec<WindowCard>,
    pub selected: usize,
}

/// The selection after Tab.
pub open spec fn next_sel(sel: int, len: int) -> int {
    if len == 0 {
        sel
    } else {
        (sel + 1) % len
    }
}

/// The selection after Shift+Tab.
pub open spec fn prev_sel(sel: int, len: int) -> int {
    if len == 0 {
        sel
    } else {
        (sel + len - 1) % len
    }
}

impl App {
    /// The switcher over `cards`, with the second card selected (the
    /// "go back to the previous window" idiom) when there are several.
    pub fn with_cards(cards: Vec<WindowCard>) -> (r: Self)
        ensures
            r.cards@ == cards@,
            r.selected == (if cards@.len() > 1 {
                1usize
            } else {
                0usize
            }),
    {
        let selected = if cards.len() > 1 {
            1
        } else {
            0
        };
        App { cards, selected }
    }

    /// Apply one message: move the selection, or say that the switcher
    /// closes and which window (if any) gets focus.
    pub fn update(&mut self, msg: Message) -> (act: SwitcherAction)
        requires
            msg is Next && old(self).cards@.len() > 0 ==> old(self).selected < usize::MAX,
            msg is Prev ==> old(self).selected + old(self).cards@.len() <= usize::MAX,
        ensures
            final(self).cards@ == old(self).cards@,
            match msg {
                Message::Next => act == SwitcherAction::Stay && final(self).selected == next_sel(
                    old(self).selected as int,
                    old(self).cards@.len() as int,
                ),
                Message::Prev => act == SwitcherAction::Stay && final(self).selected == prev_sel(
                    old(self).selected as int,
                    old(self).cards@.len() as int,
                ),
                Message::Commit => final(self).selected == old(self).selected && act
                    == SwitcherAction::Close(
                    if old(self).selected < old(self).cards@.len() {
                        Some(old(self).cards@[old(self).selected as int].con_id)
                    } else {
                        None
                    },
                ),
                Message::Cancel => final(self).selected == old(self).selected && act
                    == SwitcherAction::Close(None),
                Message::Select(i) => if i < old(self).cards@.len() {
                    final(self).selected == i && act == SwitcherAction::Close(
                        Some(old(self).cards@[i as int].con_id),
                    )
                } else {
                    final(self).selected == old(self).selected && act == SwitcherAction::Stay
                },
            },
    {
        match msg {
            Message::Next => {
                if self.cards.len() > 0 {
                    self.selected = (self.selected + 1) % self.cards.len();
                }
                SwitcherAction::Stay
            },
            Message::Prev => {
                if self.cards.len() > 0 {
                    self.selected = (self.selected + self.cards.len() - 1) % self.cards.len();
                }
                SwitcherAction::Stay
            },
            Message::Commit => {
                if self.selected < self.cards.len() {
                    SwitcherAction::Close(Some(self.cards[self.selected].con_id))
                } else {
                    SwitcherAction::Close(None)
                }
            },
            Message::Cancel => SwitcherAction::Close(None),
            Message::Select(idx) => {
                if idx < self.cards.len() {
                    self.selected = idx;
                    SwitcherAction::Close(Some(self.cards[idx].con_id))
                } else {
                    SwitcherAction::Stay
                }
            },
        }
    }
}

/// Cards per row of the switcher's grid.
pub const CARDS_PER_ROW: usize = 3;

/// The first line of `s`, or nothing.
pub open spec fn head_line(s: Seq<char>) -> Seq<char> {
    if lines_of(s).len() > 0 {
        lines_of(s)[0]
    } else {
        Seq::empty()
    }
}

/// The caption of a card: its app id when the window has no title, else
/// the capped first line of the title.
pub open spec fn caption_of(c: WindowCard) -> Seq<char> {
    if c.title@.len() == 0 {
        c.app_id@
    } else {
        card_title(c.title@)
    }
}

/// The caption a card shows.
pub fn card_caption(card: &WindowCard) -> (r: String)
    ensures
        r@ == caption_of(*card),
{
    if card.title.as_str().is_empty() {
        card.app_id.clone()
    } else {
        truncate_for_card(card.title.as_str())
    }
}

/// The rows of the card grid for `n` cards: index ranges `[start, end)`
/// of at most three cards each, in order.
pub fn grid_rows(n: usize) -> (r: Vec<(usize, usize)>)
    ensures
        r@.len() == (n + CARDS_PER_ROW - 1) / CARDS_PER_ROW as int,
        forall|k: int| 0 <= k < r@.len() ==> (#[trigger] r@[k]).0 == CARDS_PER_ROW * k && r@[k].1 == (
        if CARDS_PER_ROW * k + CARDS_PER_ROW <= n {
            CARDS_PER_ROW * k + CARDS_PER_ROW
        } else {
            n as int
        }),
{
    let mut r: Vec<(usize, usize)> = Vec::new();
    let mut start: usize = 0;
    while start < n
        invariant
            start == (if CARDS_PER_ROW * r@.len() <= n {
                CARDS_PER_ROW * r@.len()
            } else {
                n as int
            }),
            CARDS_PER_ROW * r@.len() < n + CARDS_PER_ROW,
            forall|k: int| 0 <= k < r@.len() ==> (#[trigger] r@[k]).0 == CARDS_PER_ROW * k && r@[k].1
                == (if CARDS_PER_ROW * k + CARDS_PER_ROW <= n {
                CARDS_PER_ROW * k + CARDS_PER_ROW
            } else {
                n as int
            }),
        decreases n - start,
    {
        let end = if n - start >= CARDS_PER_ROW {
            start + CARDS_PER_ROW
        } else {
            n
        };
        r.push((start, end));
        start = end;
    }
    let ghost l = r@.len() as int;
    assert((n + 2) / 3 == l) by (nonlinear_arith)
        requires
            3 * l == n || (n < 3 * l && 3 * l < n + 3),
            l >= 0,
    ;
    r
}

impl App {
    /// The text shown instead of the grid when there are no windows.
    pub fn placeholder(&self) -> (r: Option<&'static str>)
        ensures
            r is Some <==> self.cards@.len() == 0,
            r matches Some(t) ==> t@ == "No windows"@,
    {
        if self.cards.len() == 0 {
            Some("No windows")
        } else {
            None
        }
    }

    /// The header line over the grid: `"<k> of <n>: <first title line>"`
    /// for the selected card `k` (counted from one).
    pub fn header(&self) -> (r: String)
        requires
            self.selected < self.cards@.len(),
        ensures
            r@ == dec(self.selected as nat + 1) + " of "@ + dec(self.cards@.len()) + ": "@
                + head_line(self.cards@[self.selected as int].title@),
    {
        let len = self.cards.len();
        assert(self.selected < len);
        let k = fmt_u64((self.selected + 1) as u64);
        let n = fmt_u64(len as u64);
        let s = concat(k.as_str(), " of ");
        let s = concat(s.as_str(), n.as_str());
        let s = concat(s.as_str(), ": ");
        let title = &self.cards[self.selected].title;
        let v = chars_of(title.as_str());
        let ls = lines_chars(v.as_slice());
        proof {
            assert(crate::text::views(ls@).len() == ls@.len());
        }
        if ls.len() > 0 {
            assert(crate::text::views(ls@)[0] == ls@[0]@);
            let first = string_of(ls[0].as_slice());
            concat(s.as_str(), first.as_str())
        } else {
            let ghost e = Seq::<char>::empty();
            assert(s@ + e =~= s@);
            s
        }
    }
}

/// Tab then Shift+Tab (or Shift+Tab then Tab) comes back to the card it
/// started on, and both keep the selection on a card.
pub proof fn law_prev_undoes_next(sel: int, len: int)
    requires
        0 <= sel < len,
    ensures
        0 <= next_sel(sel, len) < len,
        0 <= prev_sel(sel, len) < len,
        prev_sel(next_sel(sel, len), len) == sel,
        next_sel(prev_sel(sel, len), len) == sel,
{
    if sel + 1 < len {
        lemma_small_mod((sel + 1) as nat, len as nat);
        lemma_mod_multiples_vanish(1, sel, len);
        lemma_small_mod(sel as nat, len as nat);
    } else {
        lemma_mod_multiples_vanish(1, 0, len);
        lemma_small_mod(0, len as nat);
        lemma_small_mod((len - 1) as nat, len as nat);
    }
    if sel == 0 {
        lemma_small_mod((len - 1) as nat, len as nat);
        lemma_mod_multiples_vanish(1, 0, len);
        lemma_small_mod(0, len as nat);
    } else {
        lemma_mod_multiples_vanish(1, sel - 1, len);
        lemma_small_mod((sel - 1) as nat, len as nat);
        lemma_small_mod(sel as nat, len as nat);
    }
}


/// Tab (Next) moves the selection one card forward, wrapping from the last
/// card to the first; Shift+Tab (Prev) moves it one card back, wrapping
/// from the first card to the last; with no cards neither moves it.
pub proof fn law_next_forward_prev_back(sel: int, len: int)
    requires
        0 <= sel < len,
    ensures
        sel + 1 < len ==> next_sel(sel, len) == sel + 1,
        sel + 1 == len ==> next_sel(sel, len) == 0,
        sel > 0 ==> prev_sel(sel, len) == sel - 1,
        sel == 0 ==> prev_sel(sel, len) == len - 1,
        next_sel(sel, 0) == sel && prev_sel(sel, 0) == sel,
{
    if sel + 1 < len {
        lemma_small_mod((sel + 1) as nat, len as nat);
    } else {
        lemma_mod_multiples_vanish(1, 0, len);
        lemma_small_mod(0, len as nat);
    }
    if sel == 0 {
        lemma_small_mod((len - 1) as nat, len as nat);
    } else {
        lemma_mod_multiples_vanish(1, sel - 1, len);
        lemma_small_mod((sel - 1) as nat, len as nat);
    }
}

} // verus!
