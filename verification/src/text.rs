//! Character-level text utilities shared by every parser and formatter of
//! the crate: whitespace trimming, splitting on a separator, line
//! iteration and decimal rendering, each specified over `Seq<char>`.
use vstd::prelude::*;
use vstd::string::*;

verus! {

// ───────────────────────── specifications ─────────────────────────

/// The Unicode `White_Space` property (what `char::is_whitespace` and
/// `str::trim` test).
pub open spec fn is_ws(c: char) -> bool {
    let u = c as u32;
    (0x9 <= u && u <= 0xD) || u == 0x20 || u == 0x85 || u == 0xA0 || u == 0x1680 || (0x2000
        <= u && u <= 0x200A) || u == 0x2028 || u == 0x2029 || u == 0x202F || u == 0x205F || u
        == 0x3000
}

/// `s` without its leading whitespace.
pub open spec fn trim_start(s: Seq<char>) -> Seq<char>
    decreases s.len(),
{
    if s.len() > 0 && is_ws(s[0]) {
        trim_start(s.drop_first())
    } else {
        s
    }
}

/// `s` without its trailing whitespace.
pub open spec fn trim_end(s: Seq<char>) -> Seq<char>
    decreases s.len(),
{
    if s.len() > 0 && is_ws(s.last()) {
        trim_end(s.drop_last())
    } else {
        s
    }
}

/// `str::trim`.
pub open spec fn trim(s: Seq<char>) -> Seq<char> {
    trim_end(trim_start(s))
}

/// `s` without every leading and trailing occurrence of `c`
/// (`str::trim_matches` with a `char` pattern).
pub open spec fn trim_char(s: Seq<char>, c: char) -> Seq<char>
    decreases s.len(),
{
    if s.len() > 0 && s[0] == c {
        trim_char(s.drop_first(), c)
    } else if s.len() > 0 && s.last() == c {
        trim_char(s.drop_last(), c)
    } else {
        s
    }
}

/// Pieces of `s` separated by `c`, where `cur` is the piece already
/// begun to the left of `s`.
pub open spec fn split_scan(s: Seq<char>, c: char, cur: Seq<char>) -> Seq<Seq<char>>
    decreases s.len(),
{
    if s.len() == 0 {
        seq![cur]
    } else if s[0] == c {
        seq![cur] + split_scan(s.drop_first(), c, Seq::empty())
    } else {
        split_scan(s.drop_first(), c, cur.push(s[0]))
    }
}

/// `str::split` with a `char` separator: never empty.
pub open spec fn split_on(s: Seq<char>, c: char) -> Seq<Seq<char>> {
    split_scan(s, c, Seq::empty())
}

/// At most `n` pieces of `s` separated by `c`; the last piece holds the
/// rest of the text, separators included.
pub open spec fn splitn_scan(s: Seq<char>, c: char, n: nat, cur: Seq<char>) -> Seq<Seq<char>>
    decreases s.len(),
{
    if n <= 1 {
        seq![cur + s]
    } else if s.len() == 0 {
        seq![cur]
    } else if s[0] == c {
        seq![cur] + splitn_scan(s.drop_first(), c, (n - 1) as nat, Seq::empty())
    } else {
        splitn_scan(s.drop_first(), c, n, cur.push(s[0]))
    }
}

/// `str::splitn(n, c)` for `n >= 1`.
pub open spec fn splitn_on(s: Seq<char>, n: nat, c: char) -> Seq<Seq<char>> {
    splitn_scan(s, c, n, Seq::empty())
}

/// A terminated line without its carriage return, if it has one.
pub open spec fn strip_cr(l: Seq<char>) -> Seq<char> {
    if l.len() > 0 && l.last() == '\r' {
        l.drop_last()
    } else {
        l
    }
}

/// `str::lines`: split on `\n`, drop a `\r` before each `\n`, and no
/// empty last line after a final `\n`.
pub open spec fn lines_of(s: Seq<char>) -> Seq<Seq<char>> {
    let p = split_on(s, '\n');
    let body = p.drop_last().map_values(|l: Seq<char>| strip_cr(l));
    if p.last().len() == 0 {
        body
    } else {
        body.push(p.last())
    }
}

/// `p` is a prefix of `s`.
pub open spec fn has_prefix(s: Seq<char>, p: Seq<char>) -> bool {
    p.len() <= s.len() && s.subrange(0, p.len() as int) == p
}

/// The ASCII digit of `d < 10`.
pub open spec fn digit_char(d: nat) -> char {
    if d == 0 {
        '0'
    } else if d == 1 {
        '1'
    } else if d == 2 {
        '2'
    } else if d == 3 {
        '3'
    } else if d == 4 {
        '4'
    } else if d == 5 {
        '5'
    } else if d == 6 {
        '6'
    } else if d == 7 {
        '7'
    } else if d == 8 {
        '8'
    } else {
        '9'
    }
}

/// Decimal rendering of a natural number, without leading zeros.
pub open spec fn dec(n: nat) -> Seq<char>
    decreases n,
{
    if n < 10 {
        seq![digit_char(n)]
    } else {
        dec(n / 10).push(digit_char(n % 10))
    }
}

/// Decimal rendering of an integer, as `Display` writes it.
pub open spec fn dec_int(i: int) -> Seq<char> {
    if i < 0 {
        seq!['-'] + dec((-i) as nat)
    } else {
        dec(i as nat)
    }
}

/// The character sequences held by a vector of character vectors.
pub open spec fn views(v: Seq<Vec<char>>) -> Seq<Seq<char>> {
    v.map_values(|x: Vec<char>| x@)
}

/// The characters of an optional string.
pub open spec fn opt_str(o: Option<String>) -> Option<Seq<char>> {
    match o {
        Some(s) => Some(s@),
        None => None,
    }
}

/// The characters of an optional string slice.
pub open spec fn opt_strref(o: Option<&str>) -> Option<Seq<char>> {
    match o {
        Some(s) => Some(s@),
        None => None,
    }
}

// ───────────────────────── conversions ─────────────────────────

/// `String::push`: appends one character.
#[verifier::external_body]
fn push_char(s: &mut String, c: char)
    ensures
        final(s)@ == old(s)@.push(c),
{
    s.push(c);
}

/// Collect the characters of `s` into a vector.
pub fn chars_of(s: &str) -> (v: Vec<char>)
    ensures
        v@ == s@,
{
    let mut v: Vec<char> = Vec::new();
    for c in it: s.chars()
        invariant
            v@ == it.seq().take(it.index() as int),
            it.seq() == s@,
    {
        v.push(c);
    }
    v
}

/// Build a `String` from characters.
pub fn string_of(v: &[char]) -> (s: String)
    ensures
        s@ == v@,
{
    let mut s = String::new();
    let mut i: usize = 0;
    while i < v.len()
        invariant
            i <= v.len(),
            s@ == v@.subrange(0, i as int),
        decreases v.len() - i,
    {
        push_char(&mut s, v[i]);
        i += 1;
        assert(s@ =~= v@.subrange(0, i as int));
    }
    assert(s@ =~= v@);
    s
}

/// `a + b` as a new `String`.
pub fn concat(a: &str, b: &str) -> (s: String)
    ensures
        s@ == a@ + b@,
{
    let mut s = String::from_str(a);
    s.append(b);
    s
}

/// Copy of the characters `v[lo..hi]`.
pub fn slice_of(v: &[char], lo: usize, hi: usize) -> (r: Vec<char>)
    requires
        lo <= hi <= v.len(),
    ensures
        r@ == v@.subrange(lo as int, hi as int),
{
    let mut r: Vec<char> = Vec::new();
    let mut i = lo;
    while i < hi
        invariant
            lo <= i <= hi <= v.len(),
            r@ == v@.subrange(lo as int, i as int),
        decreases hi - i,
    {
        r.push(v[i]);
        i += 1;
        assert(r@ =~= v@.subrange(lo as int, i as int));
    }
    r
}

/// Character-wise equality.
pub fn same(a: &[char], b: &[char]) -> (r: bool)
    ensures
        r == (a@ == b@),
{
    if a.len() != b.len() {
        return false;
    }
    let mut i: usize = 0;
    while i < a.len()
        invariant
            a.len() == b.len(),
            i <= a.len(),
            forall|j: int| 0 <= j < i ==> a@[j] == b@[j],
        decreases a.len() - i,
    {
        if a[i] != b[i] {
            return false;
        }
        i += 1;
    }
    assert(a@ =~= b@);
    true
}

/// Equality of a character vector with a string.
pub fn same_str(a: &[char], b: &str) -> (r: bool)
    ensures
        r == (a@ == b@),
{
    let bv = chars_of(b);
    same(a, bv.as_slice())
}

/// `c` occurs in `v`.
pub fn has_char(v: &[char], c: char) -> (r: bool)
    ensures
        r == v@.contains(c),
{
    let mut i: usize = 0;
    while i < v.len()
        invariant
            i <= v.len(),
            forall|j: int| 0 <= j < i ==> v@[j] != c,
        decreases v.len() - i,
    {
        if v[i] == c {
            return true;
        }
        i += 1;
    }
    false
}

// ───────────────────────── whitespace ─────────────────────────

/// `char::is_whitespace`.
pub fn char_is_ws(c: char) -> (b: bool)
    ensures
        b == is_ws(c),
{
    let u = c as u32;
    (0x9 <= u && u <= 0xD) || u == 0x20 || u == 0x85 || u == 0xA0 || u == 0x1680 || (0x2000
        <= u && u <= 0x200A) || u == 0x2028 || u == 0x2029 || u == 0x202F || u == 0x205F || u
        == 0x3000
}

/// `str::trim`.
pub fn trim_chars(v: &[char]) -> (r: Vec<char>)
    ensures
        r@ == trim(v@),
{
    let n = v.len();
    let mut lo: usize = 0;
    assert(v@.subrange(0, n as int) =~= v@);
    while lo < n && char_is_ws(v[lo])
        invariant
            lo <= n == v.len(),
            trim_start(v@) == trim_start(v@.subrange(lo as int, n as int)),
        decreases n - lo,
    {
        assert(v@.subrange(lo as int, n as int).drop_first() =~= v@.subrange(
            lo + 1,
            n as int,
        ));
        lo += 1;
    }
    let ghost t = v@.subrange(lo as int, n as int);
    assert(trim_start(v@) == t);
    let mut hi: usize = n;
    while hi > lo && char_is_ws(v[hi - 1])
        invariant
            lo <= hi <= n == v.len(),
            t == v@.subrange(lo as int, n as int),
            trim_end(t) == trim_end(v@.subrange(lo as int, hi as int)),
        decreases hi,
    {
        assert(v@.subrange(lo as int, hi as int).drop_last() =~= v@.subrange(
            lo as int,
            hi - 1,
        ));
        hi -= 1;
    }
    slice_of(v, lo, hi)
}

/// `str::trim_matches(c)` for a single character.
pub fn trim_char_chars(v: &[char], c: char) -> (r: Vec<char>)
    ensures
        r@ == trim_char(v@, c),
{
    let n = v.len();
    let mut lo: usize = 0;
    assert(v@.subrange(0, n as int) =~= v@);
    while lo < n && v[lo] == c
        invariant
            lo <= n == v.len(),
            trim_char(v@, c) == trim_char(v@.subrange(lo as int, n as int), c),
        decreases n - lo,
    {
        assert(v@.subrange(lo as int, n as int).drop_first() =~= v@.subrange(
            lo + 1,
            n as int,
        ));
        lo += 1;
    }
    let mut hi: usize = n;
    while hi > lo && v[hi - 1] == c
        invariant
            lo <= hi <= n == v.len(),
            lo < hi ==> v@[lo as int] != c,
            trim_char(v@, c) == trim_char(v@.subrange(lo as int, hi as int), c),
        decreases hi,
    {
        assert(v@.subrange(lo as int, hi as int).drop_last() =~= v@.subrange(
            lo as int,
            hi - 1,
        ));
        hi -= 1;
    }
    slice_of(v, lo, hi)
}

// ───────────────────────── splitting ─────────────────────────

/// `str::split(c)`.
pub fn split_chars(v: &[char], c: char) -> (r: Vec<Vec<char>>)
    ensures
        views(r@) == split_on(v@, c),
        r.len() >= 1,
{
    let mut out: Vec<Vec<char>> = Vec::new();
    let mut cur: Vec<char> = Vec::new();
    let mut i: usize = 0;
    assert(v@.subrange(0, v.len() as int) =~= v@);
    assert(views(out@) + split_scan(v@, c, cur@) =~= split_on(v@, c));
    while i < v.len()
        invariant
            i <= v.len(),
            views(out@) + split_scan(v@.subrange(i as int, v.len() as int), c, cur@)
                == split_on(v@, c),
        decreases v.len() - i,
    {
        let ghost rest = v@.subrange(i as int, v.len() as int);
        assert(rest.drop_first() =~= v@.subrange(i + 1, v.len() as int));
        if v[i] == c {
            let ghost old_out = views(out@);
            let done = cur;
            cur = Vec::new();
            out.push(done);
            assert(views(out@) =~= old_out.push(done@));
            assert(old_out + split_scan(rest, c, done@) =~= views(out@) + split_scan(
                rest.drop_first(),
                c,
                Seq::empty(),
            ));
        } else {
            cur.push(v[i]);
        }
        i += 1;
    }
    let ghost old_out = views(out@);
    assert(v@.subrange(v.len() as int, v.len() as int) =~= Seq::<char>::empty());
    out.push(cur);
    assert(views(out@) =~= old_out + seq![cur@]);
    out
}

/// `str::splitn(n, c)` for `n >= 1`.
pub fn splitn_chars(v: &[char], n: usize, c: char) -> (r: Vec<Vec<char>>)
    requires
        n >= 1,
    ensures
        views(r@) == splitn_on(v@, n as nat, c),
{
    let mut out: Vec<Vec<char>> = Vec::new();
    let mut cur: Vec<char> = Vec::new();
    let mut left: usize = n;
    let mut i: usize = 0;
    assert(v@.subrange(0, v.len() as int) =~= v@);
    assert(views(out@) + splitn_scan(v@, c, n as nat, cur@) =~= splitn_on(v@, n as nat, c));
    while i < v.len() && left > 1
        invariant
            i <= v.len(),
            1 <= left <= n,
            views(out@) + splitn_scan(
                v@.subrange(i as int, v.len() as int),
                c,
                left as nat,
                cur@,
            ) == splitn_on(v@, n as nat, c),
        decreases v.len() - i,
    {
        let ghost rest = v@.subrange(i as int, v.len() as int);
        assert(rest.drop_first() =~= v@.subrange(i + 1, v.len() as int));
        if v[i] == c {
            let ghost old_out = views(out@);
            let done = cur;
            cur = Vec::new();
            out.push(done);
            left = left - 1;
            assert(views(out@) =~= old_out.push(done@));
            assert(old_out + splitn_scan(rest, c, (left + 1) as nat, done@) =~= views(out@)
                + splitn_scan(rest.drop_first(), c, left as nat, Seq::empty()));
        } else {
            cur.push(v[i]);
        }
        i += 1;
    }
    let ghost old_out = views(out@);
    let ghost rest = v@.subrange(i as int, v.len() as int);
    let ghost cur0 = cur@;
    while i < v.len()
        invariant
            i <= v.len(),
            cur0 + rest == cur@ + v@.subrange(i as int, v.len() as int),
        decreases v.len() - i,
    {
        cur.push(v[i]);
        i += 1;
        assert(cur0 + rest =~= cur@ + v@.subrange(i as int, v.len() as int));
    }
    assert(cur@ =~= cur0 + rest);
    out.push(cur);
    assert(views(out@) =~= old_out + seq![cur0 + rest]);
    out
}

/// `str::lines`.
pub fn lines_chars(v: &[char]) -> (r: Vec<Vec<char>>)
    ensures
        views(r@) == lines_of(v@),
{
    let p = split_chars(v, '\n');
    let ghost pv = views(p@);
    let k = p.len() - 1;
    let mut out: Vec<Vec<char>> = Vec::new();
    let mut i: usize = 0;
    while i < k
        invariant
            k + 1 == p.len(),
            pv == views(p@),
            i <= k,
            views(out@) == pv.drop_last().map_values(|l: Seq<char>| strip_cr(l)).take(
                i as int,
            ),
        decreases k - i,
    {
        let line = &p[i];
        let ghost old_out = views(out@);
        let m = line.len();
        let stripped = if m > 0 && line[m - 1] == '\r' {
            slice_of(line.as_slice(), 0, m - 1)
        } else {
            slice_of(line.as_slice(), 0, m)
        };
        assert(line@ == pv[i as int]);
        assert(stripped@ =~= strip_cr(pv[i as int]));
        out.push(stripped);
        assert(views(out@) =~= old_out.push(strip_cr(pv[i as int])));
        assert(views(out@) =~= pv.drop_last().map_values(|l: Seq<char>| strip_cr(l)).take(
            i + 1,
        ));
        i += 1;
    }
    let ghost body = pv.drop_last().map_values(|l: Seq<char>| strip_cr(l));
    assert(views(out@) =~= body);
    let last = &p[k];
    assert(last@ == pv.last());
    if last.len() > 0 {
        let ghost old_out = views(out@);
        let lv = slice_of(last.as_slice(), 0, last.len());
        assert(lv@ =~= last@);
        out.push(lv);
        assert(views(out@) =~= old_out.push(pv.last()));
    }
    out
}

/// `v` starts with `p`.
pub fn starts_with(v: &[char], p: &[char]) -> (r: bool)
    ensures
        r == has_prefix(v@, p@),
{
    if p.len() > v.len() {
        return false;
    }
    let mut i: usize = 0;
    while i < p.len()
        invariant
            p.len() <= v.len(),
            i <= p.len(),
            forall|j: int| 0 <= j < i ==> v@[j] == p@[j],
        decreases p.len() - i,
    {
        if v[i] != p[i] {
            assert(v@.subrange(0, p.len() as int)[i as int] != p@[i as int]);
            return false;
        }
        i += 1;
    }
    assert(v@.subrange(0, p.len() as int) =~= p@);
    true
}

// ───────────────────────── numbers ─────────────────────────

fn digit_of(d: u64) -> (c: char)
    requires
        d < 10,
    ensures
        c == digit_char(d as nat),
{
    if d == 0 {
        '0'
    } else if d == 1 {
        '1'
    } else if d == 2 {
        '2'
    } else if d == 3 {
        '3'
    } else if d == 4 {
        '4'
    } else if d == 5 {
        '5'
    } else if d == 6 {
        '6'
    } else if d == 7 {
        '7'
    } else if d == 8 {
        '8'
    } else {
        '9'
    }
}

/// Decimal digits of `n`.
pub fn dec_chars(n: u64) -> (r: Vec<char>)
    ensures
        r@ == dec(n as nat),
{
    let mut m = n;
    let mut acc: Vec<char> = Vec::new();
    loop
        invariant_except_break
            dec(n as nat) == dec(m as nat) + acc@,
        ensures
            dec(n as nat) == acc@,
        decreases m,
    {
        let d = m % 10;
        let ghost old_acc = acc@;
        acc.insert(0, digit_of(d));
        assert(acc@ =~= seq![digit_char(d as nat)] + old_acc);
        if m < 10 {
            assert(dec(m as nat) == seq![digit_char(m as nat)]);
            assert(dec(n as nat) =~= acc@);
            break ;
        }
        assert(dec(m as nat) == dec((m / 10) as nat).push(digit_char((m % 10) as nat)));
        assert(dec(n as nat) =~= dec((m / 10) as nat) + acc@);
        m = m / 10;
    }
    acc
}

/// `n.to_string()` for an unsigned integer.
pub fn fmt_u64(n: u64) -> (s: String)
    ensures
        s@ == dec(n as nat),
{
    let v = dec_chars(n);
    string_of(v.as_slice())
}

/// `i.to_string()` for an `i32`.
pub fn fmt_i32(i: i32) -> (s: String)
    ensures
        s@ == dec_int(i as int),
{
    if i < 0 {
        let mag: u64 = (0i64 - (i as i64)) as u64;
        let mut v: Vec<char> = Vec::new();
        v.push('-');
        let d = dec_chars(mag);
        let mut j: usize = 0;
        while j < d.len()
            invariant
                j <= d.len(),
                v@ == seq!['-'] + d@.subrange(0, j as int),
            decreases d.len() - j,
        {
            v.push(d[j]);
            j += 1;
            assert(v@ =~= seq!['-'] + d@.subrange(0, j as int));
        }
        assert(d@.subrange(0, d.len() as int) =~= d@);
        string_of(v.as_slice())
    } else {
        fmt_u64(i as u64)
    }
}

} // verus!
