//! Network popover: parsers for nmcli's terse (`-t`) output, which
//! separates fields with `:` and escapes a literal `:` or `\` with `\`.
use vstd::prelude::*;
use vstd::string::*;
use crate::text::{
    trim, lines_of, has_prefix, views, chars_of, string_of, trim_chars, lines_chars, same_str,
    starts_with, concat, fmt_u64, dec,
};

verus! {

broadcast use vstd::seq_lib::group_seq_properties;

/// Popover messages.
#[derive(Debug, Clone, PartialEq, Eq, Structural)]
pub enum Message {
    Refresh,
    OpenNmApplet,
    Esc,
}

/// One row of `nmcli -t -f NAME,DEVICE,TYPE,STATE connection show
/// --active`.
#[derive(Debug, Clone, Default, PartialEq, Eq)]
pub struct ActiveConnection {
    pub name: String,
    pub interface: String,
    pub conn_type: String,
    pub state: String,
}

/// One row of `nmcli -t -f DEVICE,TYPE,STATE,CONNECTION device status`.
#[derive(Debug, Clone, Default, PartialEq, Eq)]
pub struct DeviceRow {
    pub interface: String,
    pub kind: String,
    pub state: String,
    pub connection: String,
}

/// The fields of a terse line, where `cur` is the field already begun to
/// the left of `s`.
pub open spec fn nm_scan(s: Seq<char>, cur: Seq<char>) -> Seq<Seq<char>>
    decreases s.len(),
{
    if s.len() == 0 {
        seq![cur]
    } else if s[0] == '\\' && s.len() > 1 && (s[1] == ':' || s[1] == '\\') {
        nm_scan(s.skip(2), cur.push(s[1]))
    } else if s[0] == ':' {
        seq![cur] + nm_scan(s.drop_first(), Seq::empty())
    } else {
        nm_scan(s.drop_first(), cur.push(s[0]))
    }
}

/// The unescaped fields of a terse nmcli line.
pub open spec fn nmcli_fields(s: Seq<char>) -> Seq<Seq<char>> {
    nm_scan(s, Seq::empty())
}

/// A field as nmcli writes it in terse mode: each `\\` and each `:`
/// preceded by a backslash.
pub open spec fn nm_escape(f: Seq<char>) -> Seq<char>
    decreases f.len(),
{
    if f.len() == 0 {
        Seq::empty()
    } else if f[0] == '\\' || f[0] == ':' {
        seq!['\\', f[0]] + nm_escape(f.drop_first())
    } else {
        seq![f[0]] + nm_escape(f.drop_first())
    }
}

/// A terse line: the fields escaped and joined with `:`.
pub open spec fn nm_join(fields: Seq<Seq<char>>) -> Seq<char>
    decreases fields.len(),
{
    if fields.len() <= 1 {
        if fields.len() == 0 {
            Seq::empty()
        } else {
            nm_escape(fields[0])
        }
    } else {
        nm_escape(fields[0]) + seq![':'] + nm_join(fields.drop_first())
    }
}

proof fn lemma_scan_escaped(f: Seq<char>, r: Seq<char>, cur: Seq<char>)
    ensures
        nm_scan(nm_escape(f) + r, cur) == nm_scan(r, cur + f),
    decreases f.len(),
{
    if f.len() == 0 {
        assert(nm_escape(f) + r =~= r);
        assert(cur + f =~= cur);
    } else {
        let c = f[0];
        let e1 = nm_escape(f.drop_first());
        lemma_scan_escaped(f.drop_first(), r, cur.push(c));
        assert(cur.push(c) + f.drop_first() =~= cur + f);
        let s = nm_escape(f) + r;
        if c == '\\' || c == ':' {
            assert(s =~= seq!['\\', c] + (e1 + r));
            assert(s.skip(2) =~= e1 + r);
        } else {
            assert(s =~= seq![c] + (e1 + r));
            assert(s.drop_first() =~= e1 + r);
        }
    }
}

proof fn lemma_scan_join(fields: Seq<Seq<char>>)
    requires
        fields.len() >= 1,
    ensures
        nm_scan(nm_join(fields), Seq::empty()) == fields,
    decreases fields.len(),
{
    let f0 = fields[0];
    if fields.len() == 1 {
        lemma_scan_escaped(f0, Seq::empty(), Seq::empty());
        assert(nm_escape(f0) + Seq::<char>::empty() =~= nm_escape(f0));
        assert(Seq::<char>::empty() + f0 =~= f0);
        assert(seq![f0] =~= fields);
    } else {
        let rest = fields.drop_first();
        let r = seq![':'] + nm_join(rest);
        lemma_scan_join(rest);
        lemma_scan_escaped(f0, r, Seq::empty());
        assert(nm_join(fields) =~= nm_escape(f0) + r);
        assert(Seq::<char>::empty() + f0 =~= f0);
        assert(r.drop_first() =~= nm_join(rest));
        assert(seq![f0] + rest =~= fields);
    }
}

/// Splitting a terse line made of escaped fields joined with `:` gives
/// the fields back, none split or altered.
pub proof fn law_split_undoes_join(fields: Seq<Seq<char>>)
    requires
        fields.len() >= 1,
    ensures
        nmcli_fields(nm_join(fields)) == fields,
{
    lemma_scan_join(fields);
}

/// Split on unescaped colons and un-escape the field bodies.
pub fn nmcli_split(line: &str) -> (r: Vec<String>)
    ensures
        r@.map_values(|x: String| x@) == nmcli_fields(line@),
{
    let v = chars_of(line);
    let f = nmcli_split_chars(v.as_slice());
    let mut out: Vec<String> = Vec::new();
    let mut i: usize = 0;
    while i < f.len()
        invariant
            i <= f.len(),
            out@.map_values(|x: String| x@) == views(f@).take(i as int),
        decreases f.len() - i,
    {
        let ghost before = out@.map_values(|x: String| x@);
        out.push(string_of(f[i].as_slice()));
        assert(out@.map_values(|x: String| x@) =~= before.push(f@[i as int]@));
        assert(views(f@).take(i + 1) =~= views(f@).take(i as int).push(f@[i as int]@));
        i += 1;
    }
    assert(views(f@).take(f.len() as int) =~= views(f@));
    out
}

fn nmcli_split_chars(v: &[char]) -> (r: Vec<Vec<char>>)
    ensures
        views(r@) == nmcli_fields(v@),
{
    let mut out: Vec<Vec<char>> = Vec::new();
    let mut cur: Vec<char> = Vec::new();
    let mut i: usize = 0;
    assert(v@.skip(0) =~= v@);
    assert(views(out@) + nm_scan(v@, cur@) =~= nmcli_fields(v@));
    while i < v.len()
        invariant
            i <= v.len(),
            views(out@) + nm_scan(v@.skip(i as int), cur@) == nmcli_fields(v@),
        decreases v.len() - i,
    {
        let ghost rest = v@.skip(i as int);
        let c = v[i];
        if c == '\\' && i + 1 < v.len() && (v[i + 1] == ':' || v[i + 1] == '\\') {
            assert(rest.skip(2) =~= v@.skip(i + 2));
            cur.push(v[i + 1]);
            i += 2;
        } else if c == ':' {
            assert(rest.drop_first() =~= v@.skip(i + 1));
            let ghost old_out = views(out@);
            let done = cur;
            cur = Vec::new();
            out.push(done);
            assert(views(out@) =~= old_out.push(done@));
            assert(old_out + nm_scan(rest, done@) =~= views(out@) + nm_scan(
                rest.drop_first(),
                Seq::empty(),
            ));
            i += 1;
        } else {
            assert(rest.drop_first() =~= v@.skip(i + 1));
            cur.push(c);
            i += 1;
        }
    }
    let ghost old_out = views(out@);
    assert(v@.skip(i as int) =~= Seq::<char>::empty());
    out.push(cur);
    assert(views(out@) =~= old_out + seq![cur@]);
    out
}

/// The rows of the active-connection listing: each non-blank (trimmed)
/// line with at least four fields.
pub open spec fn active_rows(ls: Seq<Seq<char>>) -> Seq<(Seq<char>, Seq<char>, Seq<char>, Seq<char>)>
    decreases ls.len(),
{
    if ls.len() == 0 {
        seq![]
    } else {
        let line = trim(ls[0]);
        let f = nmcli_fields(line);
        let rest = active_rows(ls.drop_first());
        if line.len() == 0 || f.len() < 4 {
            rest
        } else {
            seq![(f[0], f[1], f[2], f[3])] + rest
        }
    }
}

pub open spec fn active_view(c: ActiveConnection) -> (Seq<char>, Seq<char>, Seq<char>, Seq<char>) {
    (c.name@, c.interface@, c.conn_type@, c.state@)
}

/// Pure parser for `nmcli -t -f NAME,DEVICE,TYPE,STATE connection show
/// --active` output.
pub fn parse_active_connections(raw: &str) -> (r: Vec<ActiveConnection>)
    ensures
        r@.map_values(|c: ActiveConnection| active_view(c)) == active_rows(lines_of(raw@)),
{
    let v = chars_of(raw);
    let ls = lines_chars(v.as_slice());
    let ghost lv = views(ls@);
    let mut out: Vec<ActiveConnection> = Vec::new();
    let mut i: usize = 0;
    assert(lv.skip(0) =~= lv);
    assert(out@.map_values(|c: ActiveConnection| active_view(c)) + active_rows(lv) =~= active_rows(
        lv,
    ));
    while i < ls.len()
        invariant
            i <= ls.len(),
            lv == views(ls@),
            out@.map_values(|c: ActiveConnection| active_view(c)) + active_rows(lv.skip(i as int))
                == active_rows(lv),
        decreases ls.len() - i,
    {
        let ghost rest = lv.skip(i as int);
        assert(rest.drop_first() =~= lv.skip(i + 1));
        assert(rest[0] == ls@[i as int]@);
        let line = trim_chars(ls[i].as_slice());
        if line.len() > 0 {
            let fields = nmcli_split_chars(line.as_slice());
            if fields.len() >= 4 {
                let ghost before = out@.map_values(|c: ActiveConnection| active_view(c));
                out.push(
                    ActiveConnection {
                        name: string_of(fields[0].as_slice()),
                        interface: string_of(fields[1].as_slice()),
                        conn_type: string_of(fields[2].as_slice()),
                        state: string_of(fields[3].as_slice()),
                    },
                );
                let ghost f = views(fields@);
                assert(out@.map_values(|c: ActiveConnection| active_view(c)) =~= before.push(
                    (f[0], f[1], f[2], f[3]),
                ));
                assert(before + active_rows(rest) =~= out@.map_values(
                    |c: ActiveConnection| active_view(c),
                ) + active_rows(rest.drop_first()));
            }
        }
        i += 1;
    }
    assert(lv.skip(ls.len() as int) =~= Seq::<Seq<char>>::empty());
    assert(out@.map_values(|c: ActiveConnection| active_view(c)) + Seq::empty() =~= out@.map_values(
        |c: ActiveConnection| active_view(c),
    ));
    out
}

/// Loopback and Wi-Fi P2P helper devices are not listed.
pub open spec fn hidden_device(dev: Seq<char>) -> bool {
    dev == "lo"@ || has_prefix(dev, "p2p-"@)
}

/// The rows of the device listing: non-blank lines with at least four
/// fields, hidden devices skipped, a `--` connection shown as empty.
pub open spec fn device_rows(ls: Seq<Seq<char>>) -> Seq<(Seq<char>, Seq<char>, Seq<char>, Seq<char>)>
    decreases ls.len(),
{
    if ls.len() == 0 {
        seq![]
    } else {
        let line = trim(ls[0]);
        let f = nmcli_fields(line);
        let rest = device_rows(ls.drop_first());
        if line.len() == 0 || f.len() < 4 || hidden_device(f[0]) {
            rest
        } else {
            seq![
                (f[0], f[1], f[2], if f[3] == "--"@ {
                    Seq::empty()
                } else {
                    f[3]
                }),
            ] + rest
        }
    }
}

pub open spec fn device_view(d: DeviceRow) -> (Seq<char>, Seq<char>, Seq<char>, Seq<char>) {
    (d.interface@, d.kind@, d.state@, d.connection@)
}

/// Pure parser for `nmcli -t -f DEVICE,TYPE,STATE,CONNECTION device
/// status`.
pub fn parse_devices(raw: &str) -> (r: Vec<DeviceRow>)
    ensures
        r@.map_values(|d: DeviceRow| device_view(d)) == device_rows(lines_of(raw@)),
{
    let v = chars_of(raw);
    let ls = lines_chars(v.as_slice());
    let ghost lv = views(ls@);
    let lo = chars_of("lo");
    let p2p = chars_of("p2p-");
    let dashes = chars_of("--");
    let mut out: Vec<DeviceRow> = Vec::new();
    let mut i: usize = 0;
    assert(lv.skip(0) =~= lv);
    assert(out@.map_values(|d: DeviceRow| device_view(d)) + device_rows(lv) =~= device_rows(lv));
    while i < ls.len()
        invariant
            i <= ls.len(),
            lv == views(ls@),
            lo@ == "lo"@,
            p2p@ == "p2p-"@,
            dashes@ == "--"@,
            out@.map_values(|d: DeviceRow| device_view(d)) + device_rows(lv.skip(i as int))
                == device_rows(lv),
        decreases ls.len() - i,
    {
        let ghost rest = lv.skip(i as int);
        assert(rest.drop_first() =~= lv.skip(i + 1));
        assert(rest[0] == ls@[i as int]@);
        let line = trim_chars(ls[i].as_slice());
        if line.len() > 0 {
            let fields = nmcli_split_chars(line.as_slice());
            if fields.len() >= 4 {
                let dev = &fields[0];
                let hidden = crate::text::same(dev.as_slice(), lo.as_slice()) || starts_with(
                    dev.as_slice(),
                    p2p.as_slice(),
                );
                if !hidden {
                    let ghost before = out@.map_values(|d: DeviceRow| device_view(d));
                    let connection = if crate::text::same(fields[3].as_slice(), dashes.as_slice()) {
                        String::new()
                    } else {
                        string_of(fields[3].as_slice())
                    };
                    out.push(
                        DeviceRow {
                            interface: string_of(fields[0].as_slice()),
                            kind: string_of(fields[1].as_slice()),
                            state: string_of(fields[2].as_slice()),
                            connection,
                        },
                    );
                    let ghost f = views(fields@);
                    assert(out@.map_values(|d: DeviceRow| device_view(d)) =~= before.push(
                        (f[0], f[1], f[2], if f[3] == "--"@ {
                            Seq::empty()
                        } else {
                            f[3]
                        }),
                    ));
                    assert(before + device_rows(rest) =~= out@.map_values(
                        |d: DeviceRow| device_view(d),
                    ) + device_rows(rest.drop_first()));
                }
            }
        }
        i += 1;
    }
    assert(lv.skip(ls.len() as int) =~= Seq::<Seq<char>>::empty());
    assert(out@.map_values(|d: DeviceRow| device_view(d)) + Seq::empty() =~= out@.map_values(
        |d: DeviceRow| device_view(d),
    ));
    out
}

// ───────────────────────── card texts ─────────────────────────

/// The line under the popover's title: `"<n> active · <m> device(s)"`.
pub fn subtitle(active: usize, devices: usize) -> (r: String)
    ensures
        r@ == dec(active as nat) + " active · "@ + dec(devices as nat) + " device"@ + (if devices
            == 1 {
            ""@
        } else {
            "s"@
        }),
{
    let a = fmt_u64(active as u64);
    let d = fmt_u64(devices as u64);
    let s = concat(a.as_str(), " active · ");
    let s = concat(s.as_str(), d.as_str());
    let s = concat(s.as_str(), " device");
    concat(s.as_str(), if devices == 1 { "" } else { "s" })
}

/// The detail line of an active connection: `"<iface> · <type> · <state>"`.
pub fn active_detail(c: &ActiveConnection) -> (r: String)
    ensures
        r@ == c.interface@ + " · "@ + c.conn_type@ + " · "@ + c.state@,
{
    let s = concat(c.interface.as_str(), " · ");
    let s = concat(s.as_str(), c.conn_type.as_str());
    let s = concat(s.as_str(), " · ");
    concat(s.as_str(), c.state.as_str())
}

/// The title of a device card: `"<iface> (<kind>)"`.
pub fn device_title(d: &DeviceRow) -> (r: String)
    ensures
        r@ == d.interface@ + " ("@ + d.kind@ + ")"@,
{
    let s = concat(d.interface.as_str(), " (");
    let s = concat(s.as_str(), d.kind.as_str());
    concat(s.as_str(), ")")
}

/// The detail of a device card: its state, then `" · <connection>"` when
/// it has one.
pub fn device_detail(d: &DeviceRow) -> (r: String)
    ensures
        r@ == d.state@ + (if d.connection@.len() == 0 {
            Seq::<char>::empty()
        } else {
            " · "@ + d.connection@
        }),
{
    if d.connection.as_str().is_empty() {
        let r = d.state.clone();
        assert(r@ + Seq::<char>::empty() =~= r@);
        r
    } else {
        let s = concat(d.state.as_str(), " · ");
        let r = concat(s.as_str(), d.connection.as_str());
        assert(r@ =~= d.state@ + (" · "@ + d.connection@));
        r
    }
}

} // verus!
