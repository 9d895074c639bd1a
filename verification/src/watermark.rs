//! The panel's lower-right watermark: the line it shows (version, build,
//! release, host, pending updates) and how each field is read from the
//! contents of its source files.
use vstd::prelude::*;
use vstd::string::*;
use crate::text::{
    lines_of, lines_chars, has_prefix, trim, trim_char, trim_chars, trim_char_chars, chars_of,
    string_of, starts_with, slice_of, concat, fmt_u64, dec, opt_str, opt_strref, views,
};

verus! {

/// Snapshot of every value the watermark renders.
#[derive(Debug, Clone)]
pub struct WatermarkState {
    pub mde_version: String,
    pub fedora_release: String,
    pub build_hash: Option<String>,
    /// UTC build date in `YYYY-MM-DD` form, when known.
    pub build_date: Option<String>,
    pub hostname: String,
    pub pending_updates: u32,
}

impl Default for WatermarkState {
    fn default() -> (r: Self)
        ensures
            r.mde_version@.len() == 0,
            r.fedora_release@.len() == 0,
            r.build_hash is None,
            r.build_date is None,
            r.hostname@.len() == 0,
            r.pending_updates == 0,
    {
        WatermarkState {
            mde_version: String::new(),
            fedora_release: String::new(),
            build_hash: None,
            build_date: None,
            hostname: String::new(),
            pending_updates: 0,
        }
    }
}

/// `" · <s>"` after `lead`, or nothing.
pub open spec fn clause(lead: Seq<char>, o: Option<String>) -> Seq<char> {
    match o {
        Some(s) => lead + s@,
        None => Seq::empty(),
    }
}

/// The watermark line: empty without pending updates, else
/// `MDE <ver>[ · <hash>][ · Built <date>] · Fedora <rel> · <host> · <n> updates pending`.
pub open spec fn watermark_line(st: WatermarkState) -> Seq<char> {
    if st.pending_updates == 0 {
        Seq::empty()
    } else {
        "MDE "@ + st.mde_version@ + clause(" · "@, st.build_hash) + clause(
            " · Built "@,
            st.build_date,
        ) + " · Fedora "@ + st.fedora_release@ + " · "@ + st.hostname@ + " · "@ + dec(
            st.pending_updates as nat,
        ) + " updates pending"@
    }
}

fn push_clause(s: String, lead: &str, o: &Option<String>) -> (r: String)
    ensures
        r@ == s@ + clause(lead@, *o),
{
    match o {
        Some(x) => {
            let t = concat(s.as_str(), lead);
            concat(t.as_str(), x.as_str())
        },
        None => {
            assert(s@ + Seq::<char>::empty() =~= s@);
            s
        },
    }
}

impl WatermarkState {
    /// Single-line label rendered onto the panel. Empty when no
    /// updates are pending — the rendered widget hides on empty.
    pub fn render_line(&self) -> (r: String)
        ensures
            r@ == watermark_line(*self),
    {
        if self.pending_updates == 0 {
            return String::new();
        }
        let s = concat("MDE ", self.mde_version.as_str());
        let s = push_clause(s, " · ", &self.build_hash);
        let s = push_clause(s, " · Built ", &self.build_date);
        let s = concat(s.as_str(), " · Fedora ");
        let s = concat(s.as_str(), self.fedora_release.as_str());
        let s = concat(s.as_str(), " · ");
        let s = concat(s.as_str(), self.hostname.as_str());
        let s = concat(s.as_str(), " · ");
        let n = fmt_u64(self.pending_updates as u64);
        let s = concat(s.as_str(), n.as_str());
        concat(s.as_str(), " updates pending")
    }

    /// The watermark from the contents of its sources (`None` for a file
    /// that could not be read): the release from `/etc/os-release`
    /// (empty when it cannot be read), the build hash from the build environment or
    /// else the first non-blank build-hash file, the build date from the
    /// first non-blank build-date file, the host name (empty when it
    /// cannot be read) and the pending-update count (`0` when absent or not a
    /// number).
    pub fn from_sources(
        mde_version: &str,
        os_release: Option<&str>,
        build_hash_env: Option<&str>,
        hash_files: &[Option<String>],
        date_files: &[Option<String>],
        hostname_file: Option<&str>,
        count_file: Option<&str>,
    ) -> (r: Self)
        ensures
            r.mde_version@ == mde_version@,
            r.fedora_release@ == release_from(opt_strref(os_release)),
            opt_str(r.build_hash) == match build_hash_env {
                Some(h) => Some(h@),
                None => first_meta(opt_strs(hash_files@)),
            },
            opt_str(r.build_date) == first_meta(opt_strs(date_files@)),
            r.hostname@ == hostname_from(opt_strref(hostname_file)),
            r.pending_updates == count_from(opt_strref(count_file)),
    {
        let fedora_release = match os_release {
            Some(c) => match parse_os_release_field(c, "VERSION_ID") {
                Some(v) => v,
                None => String::new(),
            },
            None => String::new(),
        };
        let build_hash = match build_hash_env {
            Some(h) => Some(String::from_str(h)),
            None => read_build_meta(hash_files),
        };
        let hostname = match hostname_file {
            Some(h) => {
                let v = chars_of(h);
                let t = trim_chars(v.as_slice());
                string_of(t.as_slice())
            },
            None => String::new(),
        };
        let pending_updates = match count_file {
            Some(c) => parse_count(c),
            None => 0,
        };
        WatermarkState {
            mde_version: String::from_str(mde_version),
            fedora_release,
            build_hash,
            build_date: read_build_meta(date_files),
            hostname,
            pending_updates,
        }
    }
}

/// The watermark hides (renders an empty line) exactly when no updates
/// are pending.
pub proof fn law_watermark_hidden_iff_no_updates(st: WatermarkState)
    ensures
        watermark_line(st).len() == 0 <==> st.pending_updates == 0,
{
    reveal_strlit("MDE ");
    assert("MDE "@.len() == 4);
}

// ───────────────────────── sources ─────────────────────────

/// The value of the first `KEY=` line of `ls` (prefix `p` is `KEY=`),
/// trimmed and stripped of surrounding double quotes.
pub open spec fn release_field(ls: Seq<Seq<char>>, p: Seq<char>) -> Option<Seq<char>>
    decreases ls.len(),
{
    if ls.len() == 0 {
        None
    } else if has_prefix(ls[0], p) {
        Some(trim_char(trim(ls[0].skip(p.len() as int)), '"'))
    } else {
        release_field(ls.drop_first(), p)
    }
}

/// Pulls `KEY="value"` lines out of `/etc/os-release`-shaped text: the
/// value of the first line that starts with `KEY=`.
pub fn parse_os_release_field(content: &str, key: &str) -> (r: Option<String>)
    ensures
        opt_str(r) == release_field(lines_of(content@), key@.push('=')),
{
    let cv = chars_of(content);
    let ls = lines_chars(cv.as_slice());
    let mut p = chars_of(key);
    p.push('=');
    let ghost lv = views(ls@);
    let n = ls.len();
    let mut i: usize = 0;
    assert(lv.subrange(0, n as int) =~= lv);
    while i < n
        invariant
            n == ls.len() == lv.len(),
            lv == views(ls@),
            lv == lines_of(content@),
            p@ == key@.push('='),
            i <= n,
            release_field(lv, p@) == release_field(lv.subrange(i as int, n as int), p@),
        decreases n - i,
    {
        let ghost rest = lv.subrange(i as int, n as int);
        assert(rest.drop_first() =~= lv.subrange(i + 1, n as int));
        assert(rest[0] == ls@[i as int]@);
        let line = &ls[i];
        if starts_with(line.as_slice(), p.as_slice()) {
            let tail = slice_of(line.as_slice(), p.len(), line.len());
            assert(tail@ =~= line@.skip(p@.len() as int));
            let t = trim_chars(tail.as_slice());
            let q = trim_char_chars(t.as_slice(), '"');
            return Some(string_of(q.as_slice()));
        }
        i += 1;
    }
    assert(lv.subrange(n as int, n as int) =~= Seq::<Seq<char>>::empty());
    None
}

/// The release named in the os-release text; empty when the text cannot
/// be read or names none.
pub open spec fn release_from(os_release: Option<Seq<char>>) -> Seq<char> {
    match os_release {
        Some(c) => match release_field(lines_of(c), "VERSION_ID"@.push('=')) {
            Some(v) => v,
            None => Seq::<char>::empty(),
        },
        None => Seq::<char>::empty(),
    }
}

/// The host name: the trimmed hostname file; empty when it cannot be
/// read.
pub open spec fn hostname_from(h: Option<Seq<char>>) -> Seq<char> {
    match h {
        Some(c) => trim(c),
        None => Seq::<char>::empty(),
    }
}

/// The views of optional strings.
pub open spec fn opt_strs(v: Seq<Option<String>>) -> Seq<Option<Seq<char>>> {
    v.map_values(|o: Option<String>| opt_str(o))
}

/// The first candidate content that is non-blank, trimmed.
pub open spec fn first_meta(cs: Seq<Option<Seq<char>>>) -> Option<Seq<char>>
    decreases cs.len(),
{
    if cs.len() == 0 {
        None
    } else {
        match cs[0] {
            Some(c) => if trim(c).len() > 0 {
                Some(trim(c))
            } else {
                first_meta(cs.drop_first())
            },
            None => first_meta(cs.drop_first()),
        }
    }
}

/// Walk the candidate contents (`None` for a file that could not be
/// read) and return the first non-empty trimmed content.
pub fn read_build_meta(candidates: &[Option<String>]) -> (r: Option<String>)
    ensures
        opt_str(r) == first_meta(opt_strs(candidates@)),
{
    let ghost cs = opt_strs(candidates@);
    let n = candidates.len();
    let mut i: usize = 0;
    assert(cs.subrange(0, n as int) =~= cs);
    while i < n
        invariant
            n == candidates.len() == cs.len(),
            cs == opt_strs(candidates@),
            i <= n,
            first_meta(cs) == first_meta(cs.subrange(i as int, n as int)),
        decreases n - i,
    {
        let ghost rest = cs.subrange(i as int, n as int);
        assert(rest.drop_first() =~= cs.subrange(i + 1, n as int));
        assert(rest[0] == opt_str(candidates@[i as int]));
        match &candidates[i] {
            Some(s) => {
                let v = chars_of(s.as_str());
                let t = trim_chars(v.as_slice());
                if t.len() > 0 {
                    return Some(string_of(t.as_slice()));
                }
            },
            None => {},
        }
        i += 1;
    }
    assert(cs.subrange(n as int, n as int) =~= Seq::<Option<Seq<char>>>::empty());
    None
}

// ───────────────────────── numbers ─────────────────────────

/// The value of a decimal digit character.
pub open spec fn digit_val(c: char) -> nat {
    ((c as u32) - ('0' as u32)) as nat
}

/// Every character of `s` is an ASCII digit.
pub open spec fn all_digits(s: Seq<char>) -> bool {
    forall|i: int| 0 <= i < s.len() ==> '0' <= #[trigger] s[i] && s[i] <= '9'
}

/// The number the digits of `s` spell.
pub open spec fn digits_value(s: Seq<char>) -> nat
    decreases s.len(),
{
    if s.len() == 0 {
        0
    } else {
        digits_value(s.drop_last()) * 10 + digit_val(s.last())
    }
}

/// `str::parse::<u32>`: an optional `+`, then one or more digits whose
/// value fits in 32 bits.
pub open spec fn u32_text(s: Seq<char>) -> Option<u32> {
    let d = if s.len() > 0 && s[0] == '+' {
        s.drop_first()
    } else {
        s
    };
    if d.len() > 0 && all_digits(d) && digits_value(d) <= u32::MAX {
        Some(digits_value(d) as u32)
    } else {
        None
    }
}

/// The count in the cached update-count file, trimmed; `0` when absent or
/// not a number.
pub open spec fn count_from(c: Option<Seq<char>>) -> u32 {
    match c {
        Some(t) => match u32_text(trim(t)) {
            Some(n) => n,
            None => 0,
        },
        None => 0,
    }
}

/// `str::parse::<u32>`.
pub fn parse_u32(s: &[char]) -> (r: Option<u32>)
    ensures
        r == u32_text(s@),
{
    let start: usize = if s.len() > 0 && s[0] == '+' {
        1
    } else {
        0
    };
    let ghost d = s@.skip(start as int);
    assert(d =~= if s@.len() > 0 && s@[0] == '+' {
        s@.drop_first()
    } else {
        s@
    });
    if start == s.len() {
        return None;
    }
    let mut acc: u64 = 0;
    let mut i: usize = start;
    while i < s.len()
        invariant
            start <= i <= s.len(),
            start < s.len(),
            d == s@.skip(start as int),
            d == (if s@.len() > 0 && s@[0] == '+' {
                s@.drop_first()
            } else {
                s@
            }),
            acc == digits_value(s@.subrange(start as int, i as int)),
            acc <= u32::MAX,
            all_digits(s@.subrange(start as int, i as int)),
        decreases s.len() - i,
    {
        let c = s[i];
        let ghost pre = s@.subrange(start as int, i as int);
        let ghost next = s@.subrange(start as int, i + 1);
        assert(next.drop_last() =~= pre);
        if !('0' <= c && c <= '9') {
            assert(d[i - start] == c);
            assert(!all_digits(d));
            return None;
        }
        let v = (c as u32 - '0' as u32) as u64;
        assert(next.last() == c);
        assert(v == digit_val(c));
        acc = acc * 10 + v;
        assert(acc == digits_value(next));
        if acc > u32::MAX as u64 {
            proof {
                assert(d.take((i + 1 - start) as int) =~= next);
                if all_digits(d) {
                    lemma_digits_grow(d, (i + 1 - start) as int);
                    assert(digits_value(d) > u32::MAX);
                }
            }
            return None;
        }
        i += 1;
    }
    assert(s@.subrange(start as int, s.len() as int) =~= d);
    Some(acc as u32)
}

/// A longer prefix of digits never spells a smaller number.
proof fn lemma_digits_grow(d: Seq<char>, k: int)
    requires
        0 <= k <= d.len(),
        all_digits(d),
    ensures
        digits_value(d.take(k)) <= digits_value(d),
    decreases d.len() - k,
{
    if k < d.len() {
        lemma_digits_grow(d, k + 1);
        let t = d.take(k + 1);
        assert(t.drop_last() =~= d.take(k));
        assert('0' <= t.last());
    } else {
        assert(d.take(k) =~= d);
    }
}

/// The update count in the cached count file's text.
pub fn parse_count(content: &str) -> (r: u32)
    ensures
        r == count_from(Some(content@)),
{
    let v = chars_of(content);
    let t = trim_chars(v.as_slice());
    match parse_u32(t.as_slice()) {
        Some(n) => n,
        None => 0,
    }
}

} // verus!
