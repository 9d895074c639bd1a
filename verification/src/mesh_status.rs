//! Mesh-status chip: peer count + aggregate health glyph.
use vstd::prelude::*;
use vstd::string::*;
use crate::text::{dec, chars_of, same_str, fmt_u64};

verus! {

/// Minimal health report the chip needs.
#[derive(Debug, Clone)]
pub struct HealthReport {
    /// Aggregate state — one of `healthy` / `degraded` / `unreachable` /
    /// `unknown`.
    pub state: String,
    /// Number of peers contributing to the aggregate.
    pub peer_count: u32,
}

/// The state a report has when none is known: `"unknown"`.
pub fn default_unknown() -> (s: String)
    ensures
        s@ == "unknown"@,
{
    String::from_str("unknown")
}

impl Default for HealthReport {
    fn default() -> (r: Self)
        ensures
            r.state@ == "unknown"@,
            r.peer_count == 0,
    {
        HealthReport { state: default_unknown(), peer_count: 0 }
    }
}

/// Glyph for a health state.
pub open spec fn health_glyph_spec(state: Seq<char>) -> Seq<char> {
    if state == "healthy"@ {
        "\u{25CF}"@
    } else if state == "degraded"@ {
        "\u{25D0}"@
    } else if state == "unreachable"@ {
        "\u{25CB}"@
    } else {
        "?"@
    }
}

/// Glyph for a health state: ● healthy, ◐ degraded, ○ unreachable, ?
/// otherwise.
pub fn health_glyph(state: &str) -> (g: &'static str)
    ensures
        g@ == health_glyph_spec(state@),
{
    let s = chars_of(state);
    if same_str(s.as_slice(), "healthy") {
        "\u{25CF}"
    } else if same_str(s.as_slice(), "degraded") {
        "\u{25D0}"
    } else if same_str(s.as_slice(), "unreachable") {
        "\u{25CB}"
    } else {
        "?"
    }
}

/// The chip text: the peer count alone.
pub fn format_chip(report: &HealthReport) -> (s: String)
    ensures
        s@ == dec(report.peer_count as nat),
{
    fmt_u64(report.peer_count as u64)
}

} // verus!
