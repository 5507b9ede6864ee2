//! Threshold-based health classification of a parsed record.
//!
//! Six rules run in a fixed priority order; a later matching rule
//! overwrites the comment of an earlier one, so the comment kept is the
//! last matching rule's text, while the fault flag is on when any rule
//! matches. The link state is also rewritten with a cosmetic status glyph.

use vstd::prelude::*;

use crate::decimal::spec_ber_above;
use crate::decimal::ber_above_threshold;
use crate::parse::spec_parse;
use crate::raw::RawDoc;
use crate::stats::{HostContextV, ParseError, PortIdentityV, PortStats, PortStatsV};
use crate::text::str_eq;

verus! {

/// Rule 1: the link is not in its operational state.
pub open spec fn rule_link_down(s: PortStatsV) -> bool {
    s.link_state != "Active"@
}

/// Rule 2: the raw physical bit-error-rate exceeds `1.0e-9`.
pub open spec fn rule_raw_ber_high(s: PortStatsV) -> bool {
    spec_ber_above(s.raw_physical_ber) == Some(true)
}

/// Rule 3: effective physical errors were counted.
pub open spec fn rule_phys_errors(s: PortStatsV) -> bool {
    s.effective_physical_errors > 0
}

/// Rules 4 to 6: FEC histogram bin `b` holds symbol errors.
pub open spec fn rule_fec_bin(s: PortStatsV, b: int) -> bool {
    s.fec_bins[b] > 0
}

/// A record is faulty exactly when at least one of the six rules matches.
pub open spec fn spec_fault(s: PortStatsV) -> bool {
    rule_link_down(s) || rule_raw_ber_high(s) || rule_phys_errors(s) || rule_fec_bin(s, 7)
        || rule_fec_bin(s, 8) || rule_fec_bin(s, 9)
}

/// The comment kept: the text of the last matching rule in priority
/// order, or empty when no rule matches.
pub open spec fn spec_comment(s: PortStatsV) -> Seq<char> {
    if rule_fec_bin(s, 9) {
        "\u{274c} FEC[9] errors detected"@
    } else if rule_fec_bin(s, 8) {
        "\u{274c} FEC[8] errors detected"@
    } else if rule_fec_bin(s, 7) {
        "\u{274c} FEC[7] errors detected"@
    } else if rule_phys_errors(s) {
        "\u{274c} Physical errors detected"@
    } else if rule_raw_ber_high(s) {
        "\u{274c} Physical BER is high"@
    } else if rule_link_down(s) {
        "Link is down"@
    } else {
        Seq::empty()
    }
}

/// The cosmetic link-state rewrite: a glyph marks the healthy state.
pub open spec fn spec_display_link(ls: Seq<char>) -> Seq<char> {
    if ls == "Active"@ {
        "\u{2705} Active"@
    } else {
        "\u{274c} "@ + ls
    }
}

/// What evaluation produces: the record with `comment`, `fault` and the
/// displayed link state populated, everything else untouched.
pub open spec fn spec_evaluate(s: PortStatsV) -> PortStatsV {
    PortStatsV { comment: spec_comment(s), fault: spec_fault(s), link_state: spec_display_link(
        s.link_state), ..s }
}

/// Applies the six threshold rules; fails only when the raw BER text is
/// not a decimal number, naming that field.
pub fn evaluate(stats: PortStats) -> (r: Result<PortStats, ParseError>)
    ensures
        (r is Ok) == (spec_ber_above(stats@.raw_physical_ber) is Some),
        r is Ok ==> (r->Ok_0)@ == spec_evaluate(stats@),
        r is Err ==> (r->Err_0).field@ == "raw_physical_ber"@,
{
    let ber_high = match ber_above_threshold(stats.raw_physical_ber.as_str()) {
        Some(b) => b,
        None => {
            return Err(ParseError { field: String::from_str("raw_physical_ber") });
        },
    };
    let link_active = str_eq(stats.link_state.as_str(), "Active");
    let mut comment = String::new();
    let mut fault = false;
    if !link_active {
        comment = String::from_str("Link is down");
        fault = true;
    }
    if ber_high {
        comment = String::from_str("\u{274c} Physical BER is high");
        fault = true;
    }
    if stats.effective_physical_errors > 0 {
        comment = String::from_str("\u{274c} Physical errors detected");
        fault = true;
    }
    if stats.fec_bins[7] > 0 {
        comment = String::from_str("\u{274c} FEC[7] errors detected");
        fault = true;
    }
    if stats.fec_bins[8] > 0 {
        comment = String::from_str("\u{274c} FEC[8] errors detected");
        fault = true;
    }
    if stats.fec_bins[9] > 0 {
        comment = String::from_str("\u{274c} FEC[9] errors detected");
        fault = true;
    }
    let link_state = if link_active {
        String::from_str("\u{2705} Active")
    } else {
        let mut marked = String::from_str("\u{274c} ");
        marked.append(stats.link_state.as_str());
        marked
    };
    let out = PortStats { comment, fault, link_state, ..stats };
    assert(out@ == spec_evaluate(stats@));
    Ok(out)
}

/// The health rules are a pure function: records parsed and evaluated from
/// equal documents, identities and host contexts are equal, comment and
/// fault included.
pub open spec fn spec_pipeline(idv: PortIdentityV, doc: RawDoc, hostv: HostContextV) -> Result<
    PortStatsV,
    Seq<char>,
> {
    match spec_parse(idv, doc, hostv) {
        Ok(s) => if spec_ber_above(s.raw_physical_ber) is Some {
            Ok(spec_evaluate(s))
        } else {
            Err("raw_physical_ber"@)
        },
        Err(f) => Err(f),
    }
}

/// Determinism of the parse-then-evaluate pipeline: identical inputs give
/// an identical outcome on every run.
pub proof fn lemma_pipeline_deterministic(
    id1: PortIdentityV,
    id2: PortIdentityV,
    d1: RawDoc,
    d2: RawDoc,
    h1: HostContextV,
    h2: HostContextV,
)
    requires
        id1 == id2,
        d1 == d2,
        h1 == h2,
    ensures
        spec_pipeline(id1, d1, h1) == spec_pipeline(id2, d2, h2),
{
}

/// The fault flag holds exactly when one of the six rules matches.
pub proof fn lemma_fault_iff_some_rule(s: PortStatsV)
    ensures
        spec_fault(s) <==> (rule_link_down(s) || rule_raw_ber_high(s) || rule_phys_errors(s)
            || rule_fec_bin(s, 7) || rule_fec_bin(s, 8) || rule_fec_bin(s, 9)),
{
}

/// Flipping the link state of a healthy record to a non-operational value
/// turns the fault flag on.
pub proof fn lemma_flip_link_state(s: PortStatsV, v: Seq<char>)
    requires
        !spec_fault(s),
        v != "Active"@,
    ensures
        spec_fault((PortStatsV { link_state: v, ..s })),
{
}

/// Flipping the raw BER of a healthy record to a value above the
/// threshold turns the fault flag on.
pub proof fn lemma_flip_raw_ber(s: PortStatsV, v: Seq<char>)
    requires
        !spec_fault(s),
        spec_ber_above(v) == Some(true),
    ensures
        spec_fault((PortStatsV { raw_physical_ber: v, ..s })),
{
}

/// Flipping the effective physical error count of a healthy record to a
/// positive value turns the fault flag on.
pub proof fn lemma_flip_phys_errors(s: PortStatsV, n: u64)
    requires
        !spec_fault(s),
        n > 0,
    ensures
        spec_fault((PortStatsV { effective_physical_errors: n, ..s })),
{
}

/// Flipping any one of the monitored FEC bins (7, 8 or 9) of a healthy
/// record to a positive count turns the fault flag on.
pub proof fn lemma_flip_fec_bin(s: PortStatsV, b: int, n: u64)
    requires
        !spec_fault(s),
        b == 7 || b == 8 || b == 9,
        n > 0,
        s.fec_bins.len() == 16,
    ensures
        spec_fault((PortStatsV { fec_bins: s.fec_bins.update(b, n), ..s })),
{
    let t = PortStatsV { fec_bins: s.fec_bins.update(b, n), ..s };
    assert(t.fec_bins[b] == n);
}

} // verus!
