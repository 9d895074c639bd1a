//! NetworkManager status chip: the first active Wi-Fi or Ethernet
//! connection, rendered as `<glyph> <name>` or "Disconnected".
use vstd::prelude::*;
use vstd::string::*;
use crate::text::{splitn_on, lines_of, views, chars_of, string_of, lines_chars, splitn_chars, same_str, concat};

verus! {

broadcast use vstd::seq_lib::group_seq_properties;

/// One active connection row from `nmcli -t -f NAME,TYPE,DEVICE,STATE
/// connection show --active`.
#[derive(Debug, Clone, Default, PartialEq, Eq)]
pub struct ActiveConnection {
    pub name: String,
    pub kind: String,
}

/// The connection types the chip reports.
pub open spec fn chip_kind(kind: Seq<char>) -> bool {
    kind == "wifi"@ || kind == "802-3-ethernet"@ || kind == "ethernet"@
}

/// The first line (split into at most four `:`-separated parts) that is
/// `activated` and of a reported type, as `(name, kind)`.
pub open spec fn first_active(ls: Seq<Seq<char>>) -> Option<(Seq<char>, Seq<char>)>
    decreases ls.len(),
{
    if ls.len() == 0 {
        None
    } else {
        let p = splitn_on(ls[0], 4, ':');
        if p.len() >= 4 && p[3] == "activated"@ && chip_kind(p[1]) {
            Some((p[0], p[1]))
        } else {
            first_active(ls.drop_first())
        }
    }
}

/// Parse the first active wifi/ethernet connection out of nmcli's
/// colon-separated active-connection list. `None` when no connection is
/// active.
pub fn parse_active(raw: &str) -> (r: Option<ActiveConnection>)
    ensures
        r matches Some(c) ==> first_active(lines_of(raw@)) == Some((c.name@, c.kind@)),
        r is None ==> first_active(lines_of(raw@)) is None,
{
    let v = chars_of(raw);
    let ls = lines_chars(v.as_slice());
    let ghost lv = views(ls@);
    let mut i: usize = 0;
    assert(lv.skip(0) =~= lv);
    while i < ls.len()
        invariant
            i <= ls.len(),
            lv == views(ls@),
            lv == lines_of(raw@),
            first_active(lv) == first_active(lv.skip(i as int)),
        decreases ls.len() - i,
    {
        let ghost rest = lv.skip(i as int);
        assert(rest.drop_first() =~= lv.skip(i + 1));
        assert(rest[0] == ls@[i as int]@);
        let parts = splitn_chars(ls[i].as_slice(), 4, ':');
        if parts.len() >= 4 && same_str(parts[3].as_slice(), "activated") {
            let k = parts[1].as_slice();
            if same_str(k, "wifi") || same_str(k, "802-3-ethernet") || same_str(k, "ethernet") {
                assert(views(parts@)[3] == "activated"@);
                assert(views(parts@)[1] == k@);
                assert(chip_kind(views(parts@)[1]));
                let name = string_of(parts[0].as_slice());
                let kind = string_of(k);
                assert(splitn_on(rest[0], 4, ':') == views(parts@));
                assert(first_active(rest) == Some((name@, kind@)));
                return Some(ActiveConnection { name, kind });
            }
        }
        i += 1;
    }
    assert(lv.skip(ls.len() as int) =~= Seq::<Seq<char>>::empty());
    None
}

/// Glyph for a connection type (text fallback + accessibility).
pub open spec fn type_glyph_spec(kind: Seq<char>) -> Seq<char> {
    if kind == "wifi"@ {
        "\u{25EF}"@
    } else if kind == "802-3-ethernet"@ || kind == "ethernet"@ {
        "\u{2261}"@
    } else {
        "?"@
    }
}

/// Glyph for a connection type.
pub fn type_glyph(kind: &str) -> (g: &'static str)
    ensures
        g@ == type_glyph_spec(kind@),
{
    let k = chars_of(kind);
    if same_str(k.as_slice(), "wifi") {
        "\u{25EF}"
    } else if same_str(k.as_slice(), "802-3-ethernet") || same_str(k.as_slice(), "ethernet") {
        "\u{2261}"
    } else {
        "?"
    }
}

/// Render the chip's display string: `<glyph> <name>`, or "Disconnected".
pub fn format_chip(conn: Option<&ActiveConnection>) -> (s: String)
    ensures
        conn matches Some(c) ==> s@ == type_glyph_spec(c.kind@) + " "@ + c.name@,
        conn is None ==> s@ == "Disconnected"@,
{
    match conn {
        Some(c) => {
            let g = type_glyph(c.kind.as_str());
            let head = concat(g, " ");
            concat(head.as_str(), c.name.as_str())
        },
        None => String::from_str("Disconnected"),
    }
}


/// An `activated` line of type `wifi`, `802-3-ethernet` or `ethernet`
/// heading the list is the one reported, by its name and type; a line of
/// any other type, or not `activated`, is passed over.
pub proof fn law_activated_wifi_or_ethernet_reported(ls: Seq<Seq<char>>)
    requires
        ls.len() > 0,
    ensures
        ({
            let p = splitn_on(ls[0], 4, ':');
            p.len() >= 4 && p[3] == "activated"@ && (p[1] == "wifi"@ || p[1] == "802-3-ethernet"@
                || p[1] == "ethernet"@) ==> first_active(ls) == Some((p[0], p[1]))
        }),
        ({
            let p = splitn_on(ls[0], 4, ':');
            !(p.len() >= 4 && p[3] == "activated"@ && (p[1] == "wifi"@ || p[1]
                == "802-3-ethernet"@ || p[1] == "ethernet"@)) ==> first_active(ls) == first_active(
                ls.drop_first(),
            )
        }),
{
}

} // verus!
