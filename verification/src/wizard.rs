//! First-run wizard pages: the mesh passcode (validation, normalization,
//! enrolment command) and the NetworkManager connection list.
use vstd::prelude::*;
use vstd::string::*;
use crate::text::{
    is_ws, trim, split_on, lines_of, dec, views, chars_of, string_of, trim_chars, split_chars,
    lines_chars, char_is_ws, same_str, concat, fmt_u64,
};

verus! {

broadcast use vstd::seq_lib::group_seq_properties;

/// Locked passcode length.
pub const PASSCODE_LEN: usize = 16;

/// Why a candidate passcode was refused.
#[derive(Debug, Clone, PartialEq, Eq, Structural)]
pub enum ValidationError {
    WrongLength { got: usize, want: usize },
    InvalidCharacter,
}

/// A passcode character: an ASCII uppercase letter or digit.
pub open spec fn passcode_char(c: char) -> bool {
    (65 <= (c as u32) && (c as u32) <= 90) || (48 <= (c as u32) && (c as u32) <= 57)
}

/// Validate a candidate passcode: exactly `PASSCODE_LEN` bytes long, and
/// every character an ASCII uppercase letter or digit.
pub fn validate(input: &str) -> (r: Result<(), ValidationError>)
    ensures
        input.len() != PASSCODE_LEN ==> (r matches Err(
            ValidationError::WrongLength { got, want },
        ) && got == input.len() && want == PASSCODE_LEN),
        input.len() == PASSCODE_LEN ==> (r is Ok <==> forall|i: int|
            0 <= i < input@.len() ==> passcode_char(#[trigger] input@[i])),
        r is Err ==> input.len() == PASSCODE_LEN ==> r == Err::<(), ValidationError>(
            ValidationError::InvalidCharacter,
        ),
{
    let n = input.len();
    if n != PASSCODE_LEN {
        return Err(ValidationError::WrongLength { got: n, want: PASSCODE_LEN });
    }
    let v = chars_of(input);
    let mut i: usize = 0;
    while i < v.len()
        invariant
            i <= v.len(),
            v@ == input@,
            input.len() == PASSCODE_LEN,
            forall|j: int| 0 <= j < i ==> passcode_char(#[trigger] v@[j]),
        decreases v.len() - i,
    {
        let u = v[i] as u32;
        if !((65 <= u && u <= 90) || (48 <= u && u <= 57)) {
            assert(!passcode_char(v@[i as int]));
            return Err(ValidationError::InvalidCharacter);
        }
        i += 1;
    }
    Ok(())
}

impl ValidationError {
    /// The error's message, as its `Display` form reads.
    pub fn message(&self) -> (s: String)
        ensures
            self matches ValidationError::WrongLength { got, want } ==> s@ == "passcode must be "@
                + dec(want as nat) + " characters (got "@ + dec(got as nat) + ")"@,
            self is InvalidCharacter ==> s@ == "passcode must be uppercase letters or digits only"@,
    {
        match self {
            ValidationError::WrongLength { got, want } => {
                let w = fmt_u64(*want as u64);
                let g = fmt_u64(*got as u64);
                let a = concat("passcode must be ", w.as_str());
                let b = concat(a.as_str(), " characters (got ");
                let c = concat(b.as_str(), g.as_str());
                concat(c.as_str(), ")")
            },
            ValidationError::InvalidCharacter => String::from_str(
                "passcode must be uppercase letters or digits only",
            ),
        }
    }
}

/// The characters `char::to_uppercase` yields for `c`.
pub uninterp spec fn upper_of(c: char) -> Seq<char>;

/// `char::to_uppercase`, collected. Std documents the result as the
/// Unicode uppercase mapping of `c`, one or more characters that depend on
/// `c` alone; this contract names that result, and states it for ASCII
/// (`a`–`z` to `A`–`Z`, every other ASCII character unchanged). The
/// mapping of other characters is left to the name.
#[verifier::external_body]
fn to_uppercase_chars(c: char) -> (r: Vec<char>)
    ensures
        r@ == upper_of(c),
        'a' <= c <= 'z' ==> r@ == seq![((c as int) - 32) as char],
        (c as int) < 128 && !('a' <= c <= 'z') ==> r@ == seq![c],
{
    c.to_uppercase().collect()
}

/// Whitespace removed, every other character mapped to its uppercase
/// form.
pub open spec fn normalized(s: Seq<char>) -> Seq<char>
    decreases s.len(),
{
    if s.len() == 0 {
        Seq::empty()
    } else if is_ws(s.last()) {
        normalized(s.drop_last())
    } else {
        normalized(s.drop_last()) + upper_of(s.last())
    }
}

/// Every character is ASCII.
pub open spec fn all_ascii(s: Seq<char>) -> bool {
    forall|k: int| 0 <= k < s.len() ==> (#[trigger] s[k] as int) < 128
}

/// `c` with `a`–`z` mapped to `A`–`Z`.
pub open spec fn ascii_upper(c: char) -> char {
    if 'a' <= c <= 'z' {
        ((c as int) - 32) as char
    } else {
        c
    }
}

/// Whitespace removed and `a`–`z` mapped to `A`–`Z`: what `normalized` is
/// on ASCII text.
pub open spec fn ascii_normalized(s: Seq<char>) -> Seq<char>
    decreases s.len(),
{
    if s.len() == 0 {
        Seq::empty()
    } else if is_ws(s.last()) {
        ascii_normalized(s.drop_last())
    } else {
        ascii_normalized(s.drop_last()).push(ascii_upper(s.last()))
    }
}

/// Normalize user input — strips whitespace, uppercases letters. On ASCII
/// input that is: the non-whitespace characters, `a`–`z` as `A`–`Z`.
pub fn normalize(input: &str) -> (s: String)
    ensures
        s@ == normalized(input@),
        all_ascii(input@) ==> s@ == ascii_normalized(input@),
{
    let v = chars_of(input);
    let mut out: Vec<char> = Vec::new();
    let mut i: usize = 0;
    assert(v@.take(0) =~= Seq::<char>::empty());
    while i < v.len()
        invariant
            i <= v.len(),
            v@ == input@,
            out@ == normalized(v@.take(i as int)),
            all_ascii(v@) ==> out@ == ascii_normalized(v@.take(i as int)),
        decreases v.len() - i,
    {
        assert(v@.take(i + 1).drop_last() =~= v@.take(i as int));
        assert(v@.take(i + 1).last() == v@[i as int]);
        if !char_is_ws(v[i]) {
            let up = to_uppercase_chars(v[i]);
            proof {
                if all_ascii(v@) {
                    assert((v@[i as int] as int) < 128);
                    assert(up@ =~= seq![ascii_upper(v@[i as int])]);
                }
            }
            let mut j: usize = 0;
            let ghost base = out@;
            while j < up.len()
                invariant
                    j <= up.len(),
                    out@ == base + up@.take(j as int),
                decreases up.len() - j,
            {
                out.push(up[j]);
                j += 1;
                assert(out@ =~= base + up@.take(j as int));
            }
            assert(up@.take(up.len() as int) =~= up@);
        }
        i += 1;
    }
    assert(v@.take(v.len() as int) =~= v@);
    string_of(out.as_slice())
}

/// The argv that invokes `mded enroll --passcode <pc> --json`.
pub fn build_enroll_argv(passcode: &str) -> (argv: Vec<String>)
    ensures
        argv@.map_values(|s: String| s@) == seq![
            "mded"@,
            "enroll"@,
            "--passcode"@,
            passcode@,
            "--json"@,
        ],
{
    let mut argv: Vec<String> = Vec::new();
    argv.push(String::from_str("mded"));
    argv.push(String::from_str("enroll"));
    argv.push(String::from_str("--passcode"));
    argv.push(String::from_str(passcode));
    argv.push(String::from_str("--json"));
    assert(argv@.map_values(|s: String| s@) =~= seq![
        "mded"@,
        "enroll"@,
        "--passcode"@,
        passcode@,
        "--json"@,
    ]);
    argv
}

/// One NetworkManager connection record.
#[derive(Debug, Clone, PartialEq, Eq)]
pub struct NmConnection {
    pub name: String,
    pub device: String,
    pub kind: String,
    pub state: String,
}

impl NmConnection {
    /// True when the connection's state is `activated`.
    pub fn is_active(&self) -> (b: bool)
        ensures
            b == (self.state@ == "activated"@),
    {
        let s = chars_of(self.state.as_str());
        same_str(s.as_slice(), "activated")
    }
}

/// The `k`-th `:`-separated piece of a line, trimmed (empty when absent).
pub open spec fn piece(p: Seq<Seq<char>>, k: int) -> Seq<char> {
    if k < p.len() {
        trim(p[k])
    } else {
        Seq::empty()
    }
}

/// The records of `nmcli -t -f NAME,DEVICE,TYPE,STATE connection show`:
/// one per line whose (trimmed) name is not empty.
pub open spec fn nm_records(ls: Seq<Seq<char>>) -> Seq<(Seq<char>, Seq<char>, Seq<char>, Seq<char>)>
    decreases ls.len(),
{
    if ls.len() == 0 {
        seq![]
    } else {
        let p = split_on(ls[0], ':');
        let rest = nm_records(ls.drop_first());
        if piece(p, 0).len() == 0 {
            rest
        } else {
            seq![(piece(p, 0), piece(p, 1), piece(p, 2), piece(p, 3))] + rest
        }
    }
}

pub open spec fn nm_view(c: NmConnection) -> (Seq<char>, Seq<char>, Seq<char>, Seq<char>) {
    (c.name@, c.device@, c.kind@, c.state@)
}

fn piece_of(p: &Vec<Vec<char>>, k: usize) -> (r: String)
    ensures
        r@ == piece(views(p@), k as int),
{
    if k < p.len() {
        let t = trim_chars(p[k].as_slice());
        string_of(t.as_slice())
    } else {
        String::new()
    }
}

/// Pure parser of nmcli's connection listing.
pub fn parse_nmcli_connections(output: &str) -> (r: Vec<NmConnection>)
    ensures
        r@.map_values(|c: NmConnection| nm_view(c)) == nm_records(lines_of(output@)),
{
    let v = chars_of(output);
    let ls = lines_chars(v.as_slice());
    let ghost lv = views(ls@);
    let mut out: Vec<NmConnection> = Vec::new();
    let mut i: usize = 0;
    assert(lv.skip(0) =~= lv);
    assert(out@.map_values(|c: NmConnection| nm_view(c)) + nm_records(lv) =~= nm_records(lv));
    while i < ls.len()
        invariant
            i <= ls.len(),
            lv == views(ls@),
            out@.map_values(|c: NmConnection| nm_view(c)) + nm_records(lv.skip(i as int))
                == nm_records(lv),
        decreases ls.len() - i,
    {
        let ghost rest = lv.skip(i as int);
        assert(rest.drop_first() =~= lv.skip(i + 1));
        assert(rest[0] == ls@[i as int]@);
        let parts = split_chars(ls[i].as_slice(), ':');
        let name = piece_of(&parts, 0);
        if !name.as_str().is_empty() {
            let ghost before = out@.map_values(|c: NmConnection| nm_view(c));
            let device = piece_of(&parts, 1);
            let kind = piece_of(&parts, 2);
            let state = piece_of(&parts, 3);
            let ghost row = (name@, device@, kind@, state@);
            out.push(NmConnection { name, device, kind, state });
            assert(out@.map_values(|c: NmConnection| nm_view(c)) =~= before.push(row));
            assert(before + nm_records(rest) =~= out@.map_values(|c: NmConnection| nm_view(c))
                + nm_records(rest.drop_first()));
        } else {
            assert(name@.len() == 0);
        }
        i += 1;
    }
    assert(lv.skip(ls.len() as int) =~= Seq::<Seq<char>>::empty());
    assert(out@.map_values(|c: NmConnection| nm_view(c)) + Seq::empty() =~= out@.map_values(
        |c: NmConnection| nm_view(c),
    ));
    out
}

/// The argv for activating a connection: `nmcli connection up <name>`.
pub fn build_activate_argv(connection_name: &str) -> (argv: Vec<String>)
    ensures
        argv@.map_values(|s: String| s@) == seq![
            "nmcli"@,
            "connection"@,
            "up"@,
            connection_name@,
        ],
{
    let mut argv: Vec<String> = Vec::new();
    argv.push(String::from_str("nmcli"));
    argv.push(String::from_str("connection"));
    argv.push(String::from_str("up"));
    argv.push(String::from_str(connection_name));
    assert(argv@.map_values(|s: String| s@) =~= seq![
        "nmcli"@,
        "connection"@,
        "up"@,
        connection_name@,
    ]);
    argv
}


/// A character belongs in a passcode exactly when it is an ASCII uppercase
/// letter `A`–`Z` or an ASCII digit `0`–`9`.
pub proof fn law_passcode_chars_are_upper_letters_and_digits(c: char)
    ensures
        passcode_char(c) <==> ('A' <= c <= 'Z' || '0' <= c <= '9'),
{
}

} // verus!
