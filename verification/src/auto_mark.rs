//! Marks a freshly opened window starts with: the taxonomy bucket of its
//! class, plus the default marks of every tag manifest that lists the
//! class among its apps.
use vstd::prelude::*;
use vstd::string::*;
use crate::order::{strs, string_eq};
use crate::tags::TagManifest;
use crate::text::{split_on, trim, views, chars_of, split_chars, trim_chars, same_str, string_of, opt_strref};
use crate::workspace::{apps_of, opt_manifests, lists_app};

verus! {

/// The taxonomy bucket (editor / web / shell / mail / chat) of a window
/// class, when the class is a known one.
pub open spec fn taxonomy(c: Seq<char>) -> Option<Seq<char>> {
    if c == "code"@ || c == "codium"@ || c == "org.gnome.TextEditor"@ || c == "gedit"@ || c
        == "kate"@ {
        Some("editor"@)
    } else if c == "firefox"@ || c == "org.mozilla.firefox"@ || c == "chromium"@ || c
        == "google-chrome"@ || c == "brave-browser"@ {
        Some("web"@)
    } else if c == "kitty"@ || c == "foot"@ || c == "Alacritty"@ || c == "org.wezfurlong.wezterm"@
        || c == "org.gnome.Terminal"@ {
        Some("shell"@)
    } else if c == "thunderbird"@ || c == "org.mozilla.Thunderbird"@ || c == "evolution"@ || c
        == "geary"@ {
        Some("mail"@)
    } else if c == "discord"@ || c == "Slack"@ || c == "signal"@ || c == "Element"@ || c
        == "org.telegram.desktop"@ {
        Some("chat"@)
    } else {
        None
    }
}

/// The taxonomy bucket of window class `class`, or `None` for a class
/// outside the taxonomy.
pub fn taxonomy_for_app_id(class: &str) -> (r: Option<&'static str>)
    ensures
        opt_strref(r) == taxonomy(class@),
{
    if string_eq(class, "code") || string_eq(class, "codium") || string_eq(
        class,
        "org.gnome.TextEditor",
    ) || string_eq(class, "gedit") || string_eq(class, "kate") {
        Some("editor")
    } else if string_eq(class, "firefox") || string_eq(class, "org.mozilla.firefox") || string_eq(
        class,
        "chromium",
    ) || string_eq(class, "google-chrome") || string_eq(class, "brave-browser") {
        Some("web")
    } else if string_eq(class, "kitty") || string_eq(class, "foot") || string_eq(class, "Alacritty")
        || string_eq(class, "org.wezfurlong.wezterm") || string_eq(class, "org.gnome.Terminal") {
        Some("shell")
    } else if string_eq(class, "thunderbird") || string_eq(class, "org.mozilla.Thunderbird")
        || string_eq(class, "evolution") || string_eq(class, "geary") {
        Some("mail")
    } else if string_eq(class, "discord") || string_eq(class, "Slack") || string_eq(class, "signal")
        || string_eq(class, "Element") || string_eq(class, "org.telegram.desktop") {
        Some("chat")
    } else {
        None
    }
}

/// The default marks of a manifest: its comma-separated `marks_default`,
/// each piece trimmed.
pub open spec fn mark_items(m: TagManifest) -> Seq<Seq<char>> {
    split_on(m.marks_default@, ',').map_values(|p: Seq<char>| trim(p))
}

/// `out` followed by every non-empty item of `items` not already in it,
/// in order.
pub open spec fn add_new(out: Seq<Seq<char>>, items: Seq<Seq<char>>) -> Seq<Seq<char>>
    decreases items.len(),
{
    if items.len() == 0 {
        out
    } else {
        let x = items[0];
        add_new(
            if x.len() > 0 && !out.contains(x) {
                out.push(x)
            } else {
                out
            },
            items.drop_first(),
        )
    }
}

/// `out` extended by the default marks of every manifest of `ms` that
/// lists `class`, manifest by manifest.
pub open spec fn with_manifest_marks(out: Seq<Seq<char>>, ms: Seq<TagManifest>, class: Seq<char>) -> Seq<
    Seq<char>,
>
    decreases ms.len(),
{
    if ms.len() == 0 {
        out
    } else {
        with_manifest_marks(
            if apps_of(ms[0]).contains(class) {
                add_new(out, mark_items(ms[0]))
            } else {
                out
            },
            ms.drop_first(),
            class,
        )
    }
}

/// The seed marks of a window of class `class`.
pub open spec fn auto_marks(class: Seq<char>, ms: Option<Seq<TagManifest>>) -> Seq<Seq<char>> {
    let base = match taxonomy(class) {
        Some(t) => seq![t],
        None => Seq::empty(),
    };
    match ms {
        Some(l) => with_manifest_marks(base, l, class),
        None => base,
    }
}

fn has_string(out: &Vec<String>, t: &[char]) -> (r: bool)
    ensures
        r == strs(out@).contains(t@),
{
    let mut i: usize = 0;
    while i < out.len()
        invariant
            i <= out.len(),
            forall|j: int| 0 <= j < i ==> strs(out@)[j] != t@,
        decreases out.len() - i,
    {
        if same_str(t, out[i].as_str()) {
            assert(strs(out@)[i as int] == t@);
            return true;
        }
        i += 1;
    }
    false
}

/// Append to `out` the default marks of `m` it does not hold yet.
fn push_manifest_marks(out: &mut Vec<String>, m: &TagManifest)
    ensures
        strs(final(out)@) == add_new(strs(old(out)@), mark_items(*m)),
{
    let md = chars_of(m.marks_default.as_str());
    let parts = split_chars(md.as_slice(), ',');
    let ghost items = mark_items(*m);
    assert(items =~= views(parts@).map_values(|p: Seq<char>| trim(p)));
    let ghost total = add_new(strs(out@), items);
    let n = parts.len();
    let mut j: usize = 0;
    assert(items.subrange(0, n as int) =~= items);
    while j < n
        invariant
            n == parts.len() == items.len(),
            j <= n,
            items == views(parts@).map_values(|p: Seq<char>| trim(p)),
            total == add_new(strs(out@), items.subrange(j as int, n as int)),
        decreases n - j,
    {
        let ghost rest = items.subrange(j as int, n as int);
        assert(rest.drop_first() =~= items.subrange(j + 1, n as int));
        let t = trim_chars(parts[j].as_slice());
        assert(t@ == rest[0]);
        if t.len() > 0 && !has_string(out, t.as_slice()) {
            let ghost before = strs(out@);
            out.push(string_of(t.as_slice()));
            assert(strs(out@) =~= before.push(t@));
        }
        j += 1;
    }
}

/// Seed marks for a freshly-opened window from its class: the
/// taxonomy bucket (editor/web/shell/mail/chat) plus every
/// `marks_default` entry of any tag manifest whose `apps[]` lists the
/// class, each once, in that order.
pub fn auto_marks_for_class(class: &str, manifests: Option<&[TagManifest]>) -> (r: Vec<String>)
    ensures
        strs(r@) == auto_marks(class@, opt_manifests(manifests)),
{
    let mut out: Vec<String> = Vec::new();
    match taxonomy_for_app_id(class) {
        Some(t) => {
            out.push(t.to_owned());
        },
        None => {},
    }
    let ghost base = strs(out@);
    assert(base =~= match taxonomy(class@) {
        Some(t) => seq![t],
        None => Seq::<Seq<char>>::empty(),
    });
    match manifests {
        Some(ms) => {
            let n = ms.len();
            let mut i: usize = 0;
            assert(ms@.subrange(0, n as int) =~= ms@);
            while i < n
                invariant
                    n == ms.len(),
                    i <= n,
                    with_manifest_marks(base, ms@, class@) == with_manifest_marks(
                        strs(out@),
                        ms@.subrange(i as int, n as int),
                        class@,
                    ),
                decreases n - i,
            {
                let ghost rest = ms@.subrange(i as int, n as int);
                assert(rest.drop_first() =~= ms@.subrange(i + 1, n as int));
                assert(rest[0] == ms@[i as int]);
                if lists_app(&ms[i].apps, class) {
                    push_manifest_marks(&mut out, &ms[i]);
                }
                i += 1;
            }
            assert(ms@.subrange(n as int, n as int) =~= Seq::<TagManifest>::empty());
        },
        None => {},
    }
    out
}

/// No mark twice, and no empty mark.
pub open spec fn distinct_marks(s: Seq<Seq<char>>) -> bool {
    &&& forall|i: int, j: int| 0 <= i < j < s.len() ==> #[trigger] s[i] != #[trigger] s[j]
    &&& forall|i: int| 0 <= i < s.len() ==> (#[trigger] s[i]).len() > 0
}

proof fn lemma_add_new_distinct(out: Seq<Seq<char>>, items: Seq<Seq<char>>)
    requires
        distinct_marks(out),
    ensures
        distinct_marks(add_new(out, items)),
    decreases items.len(),
{
    if items.len() > 0 {
        let x = items[0];
        let next = if x.len() > 0 && !out.contains(x) {
            out.push(x)
        } else {
            out
        };
        if x.len() > 0 && !out.contains(x) {
            assert forall|i: int, j: int| 0 <= i < j < next.len() implies #[trigger] next[i]
                != #[trigger] next[j] by {
                if j == out.len() {
                    assert(out[i] == next[i]);
                }
            }
        }
        lemma_add_new_distinct(next, items.drop_first());
    }
}

proof fn lemma_with_manifest_marks_distinct(out: Seq<Seq<char>>, ms: Seq<TagManifest>, class: Seq<char>)
    requires
        distinct_marks(out),
    ensures
        distinct_marks(with_manifest_marks(out, ms, class)),
    decreases ms.len(),
{
    if ms.len() > 0 {
        let next = if apps_of(ms[0]).contains(class) {
            add_new(out, mark_items(ms[0]))
        } else {
            out
        };
        lemma_add_new_distinct(out, mark_items(ms[0]));
        lemma_with_manifest_marks_distinct(next, ms.drop_first(), class);
    }
}

/// A window is seeded with each mark at most once, and never with an
/// empty mark.
pub proof fn law_auto_marks_distinct(class: Seq<char>, ms: Option<Seq<TagManifest>>)
    ensures
        distinct_marks(auto_marks(class, ms)),
{
    reveal_strlit("editor");
    reveal_strlit("web");
    reveal_strlit("shell");
    reveal_strlit("mail");
    reveal_strlit("chat");
    assert("editor"@.len() > 0 && "web"@.len() > 0 && "shell"@.len() > 0);
    assert("mail"@.len() > 0 && "chat"@.len() > 0);
    let base = match taxonomy(class) {
        Some(t) => seq![t],
        None => Seq::<Seq<char>>::empty(),
    };
    assert(distinct_marks(base));
    match ms {
        Some(l) => lemma_with_manifest_marks_distinct(base, l, class),
        None => {},
    }
}

} // verus!
