//! Serialization of assembled records: the flat column values each row
//! renders to, their exact inverse, and the JSON document for the report.
//!
//! Key and column names follow the report's established wire format.

use vstd::prelude::*;

use crate::stats::{stats_wf, PortStats, PortStatsV};
use crate::text::{all_digits, digit_val, digits_value, parse_u64, spec_parse_u64};

verus! {

/// The digit character of a value below ten.
pub open spec fn digit_char(d: int) -> char {
    if d == 0 { '0' }
    else if d == 1 { '1' }
    else if d == 2 { '2' }
    else if d == 3 { '3' }
    else if d == 4 { '4' }
    else if d == 5 { '5' }
    else if d == 6 { '6' }
    else if d == 7 { '7' }
    else if d == 8 { '8' }
    else { '9' }
}

/// The decimal text of a non-negative number, most significant digit
/// first and without leading zeros.
pub open spec fn spec_u64_text(n: int) -> Seq<char>
    decreases n,
{
    if n < 10 {
        seq![digit_char(n)]
    } else {
        spec_u64_text(n / 10) + seq![digit_char(n % 10)]
    }
}

/// The decimal text is all digits and reads back to the number itself.
pub proof fn lemma_u64_text_value(n: int)
    requires
        0 <= n,
    ensures
        spec_u64_text(n).len() >= 1,
        all_digits(spec_u64_text(n)),
        digits_value(spec_u64_text(n)) == n,
    decreases n,
{
    if n < 10 {
        let s = spec_u64_text(n);
        assert(s.drop_last() =~= Seq::<char>::empty());
        assert(s.last() == digit_char(n));
        assert(digits_value(Seq::<char>::empty()) == 0);
        assert(digits_value(s) == digit_val(digit_char(n)));
    } else {
        lemma_u64_text_value(n / 10);
        let p = spec_u64_text(n / 10);
        let s = spec_u64_text(n);
        assert(s.drop_last() =~= p);
        assert(s.last() == digit_char(n % 10));
        assert(digits_value(s) == digits_value(p) * 10 + digit_val(digit_char(n % 10)));
        assert(forall|i: int| 0 <= i < s.len() ==> is_digit_holds(s, i)) by {
            assert(forall|i: int| 0 <= i < p.len() ==> crate::text::is_digit_char(p[i]));
        }
    }
}

/// Helper shape for the digit lemma's quantifier.
pub open spec fn is_digit_holds(s: Seq<char>, i: int) -> bool {
    crate::text::is_digit_char(s[i])
}

/// Reading the decimal text of a number gives the number back.
pub proof fn lemma_u64_text_round_trip(n: u64)
    ensures
        spec_parse_u64(spec_u64_text(n as int)) == Some(n),
{
    lemma_u64_text_value(n as int);
}

/// Renders a number as decimal text.
pub fn u64_to_string(n: u64) -> (r: String)
    ensures
        r@ == spec_u64_text(n as int),
    decreases n,
{
    proof {
        reveal_strlit("0");
        reveal_strlit("1");
        reveal_strlit("2");
        reveal_strlit("3");
        reveal_strlit("4");
        reveal_strlit("5");
        reveal_strlit("6");
        reveal_strlit("7");
        reveal_strlit("8");
        reveal_strlit("9");
    }
    let digit = match n % 10 {
        0 => "0",
        1 => "1",
        2 => "2",
        3 => "3",
        4 => "4",
        5 => "5",
        6 => "6",
        7 => "7",
        8 => "8",
        _ => "9",
    };
    assert(digit@ =~= seq![digit_char((n % 10) as int)]);
    if n < 10 {
        let r = String::from_str(digit);
        assert(r@ =~= seq![digit_char(n as int)]);
        r
    } else {
        let mut r = u64_to_string(n / 10);
        r.append(digit);
        assert(r@ =~= spec_u64_text(n as int / 10) + seq![digit_char(n as int % 10)]);
        r
    }
}

/// The boolean wire words.
pub open spec fn spec_bool_text(b: bool) -> Seq<char> {
    if b { "true"@ } else { "false"@ }
}

/// The column values of one record, in the report's column order.
pub open spec fn spec_fields(s: PortStatsV) -> Seq<Seq<char>> {
    seq![s.host_serial, s.hostname, s.port, s.device]
        + Seq::new(16, |i: int| spec_u64_text(s.fec_bins[i] as int))
        + Seq::new(4, |i: int| spec_u64_text(s.raw_lane_errors[i] as int))
        + seq![s.link_state, s.vendor_serial,
            spec_u64_text(s.effective_physical_errors as int),
            s.effective_physical_ber, s.raw_physical_ber, s.recommendation, s.comment,
            spec_bool_text(s.fault)]
}

/// Renders a record as its column values.
pub fn to_fields(ps: &PortStats) -> (r: Vec<String>)
    ensures
        r.deep_view() == spec_fields(ps@),
{
    let mut r: Vec<String> = Vec::new();
    r.push(ps.host_serial.clone());
    r.push(ps.hostname.clone());
    r.push(ps.port.clone());
    r.push(ps.device.clone());
    let mut i: usize = 0;
    while i < 16
        invariant
            0 <= i <= 16,
            r@.len() == 4 + i,
            r@[0]@ == ps@.host_serial,
            r@[1]@ == ps@.hostname,
            r@[2]@ == ps@.port,
            r@[3]@ == ps@.device,
            forall|j: int| 0 <= j < i ==> (#[trigger] r@[4 + j])@ == spec_u64_text(
                ps@.fec_bins[j] as int),
        decreases 16 - i,
    {
        r.push(u64_to_string(ps.fec_bins[i]));
        i += 1;
    }
    let mut i: usize = 0;
    while i < 4
        invariant
            0 <= i <= 4,
            r@.len() == 20 + i,
            r@[0]@ == ps@.host_serial,
            r@[1]@ == ps@.hostname,
            r@[2]@ == ps@.port,
            r@[3]@ == ps@.device,
            forall|j: int| 0 <= j < 16 ==> (#[trigger] r@[4 + j])@ == spec_u64_text(
                ps@.fec_bins[j] as int),
            forall|j: int| 0 <= j < i ==> (#[trigger] r@[20 + j])@ == spec_u64_text(
                ps@.raw_lane_errors[j] as int),
        decreases 4 - i,
    {
        r.push(u64_to_string(ps.raw_lane_errors[i]));
        i += 1;
    }
    r.push(ps.link_state.clone());
    r.push(ps.vendor_serial.clone());
    r.push(u64_to_string(ps.effective_physical_errors));
    r.push(ps.effective_physical_ber.clone());
    r.push(ps.raw_physical_ber.clone());
    r.push(ps.recommendation.clone());
    r.push(ps.comment.clone());
    r.push(String::from_str(if ps.fault { "true" } else { "false" }));
    proof {
        assert forall|k: int| 0 <= k < 32 implies r.deep_view()[k] == spec_fields(ps@)[k] by {
            assert(r.deep_view()[k] == r@[k]@);
            if 4 <= k < 20 {
                let j = k - 4;
                assert((r@[4 + j])@ == spec_u64_text(ps@.fec_bins[j] as int));
            } else if 20 <= k < 24 {
                let j = k - 20;
                assert((r@[20 + j])@ == spec_u64_text(ps@.raw_lane_errors[j] as int));
            }
        }
        assert(r.deep_view() =~= spec_fields(ps@));
    }
    r
}

/// The boolean a wire word denotes, if either.
pub open spec fn spec_parse_bool(s: Seq<char>) -> Option<bool> {
    if s == "true"@ {
        Some(true)
    } else if s == "false"@ {
        Some(false)
    } else {
        None
    }
}

/// The record 32 column values denote, when every numeric column is
/// numeric and the fault column is a boolean word.
pub open spec fn spec_from_fields(f: Seq<Seq<char>>) -> Option<PortStatsV> {
    if f.len() != 32 {
        None
    } else if (exists|i: int| 4 <= i < 24 && spec_parse_u64(f[i]) is None)
        || spec_parse_u64(f[26]) is None || spec_parse_bool(f[31]) is None {
        None
    } else {
        Some(
            (PortStatsV {
                host_serial: f[0],
                hostname: f[1],
                port: f[2],
                device: f[3],
                fec_bins: Seq::new(16, |i: int| spec_parse_u64(f[4 + i])->Some_0),
                raw_lane_errors: Seq::new(4, |i: int| spec_parse_u64(f[20 + i])->Some_0),
                link_state: f[24],
                vendor_serial: f[25],
                effective_physical_errors: spec_parse_u64(f[26])->Some_0,
                effective_physical_ber: f[27],
                raw_physical_ber: f[28],
                recommendation: f[29],
                comment: f[30],
                fault: spec_parse_bool(f[31])->Some_0,
            }),
        )
    }
}

/// Rendering a well-formed record to its column values and reading them
/// back yields the record unchanged, field for field.
pub proof fn lemma_fields_round_trip(s: PortStatsV)
    requires
        stats_wf(s),
    ensures
        spec_from_fields(spec_fields(s)) == Some(s),
{
    let f = spec_fields(s);
    assert(f.len() == 32);
    assert forall|i: int| 4 <= i < 24 implies spec_parse_u64(f[i]) is Some by {
        if i < 20 {
            assert(f[i] == spec_u64_text(s.fec_bins[i - 4] as int));
            lemma_u64_text_round_trip(s.fec_bins[i - 4]);
        } else {
            assert(f[i] == spec_u64_text(s.raw_lane_errors[i - 20] as int));
            lemma_u64_text_round_trip(s.raw_lane_errors[i - 20]);
        }
    }
    lemma_u64_text_round_trip(s.effective_physical_errors);
    assert(f[26] == spec_u64_text(s.effective_physical_errors as int));
    let t = spec_from_fields(f)->Some_0;
    assert forall|i: int| 0 <= i < 16 implies t.fec_bins[i] == s.fec_bins[i] by {
        assert(f[4 + i] == spec_u64_text(s.fec_bins[i] as int));
        lemma_u64_text_round_trip(s.fec_bins[i]);
    }
    assert(t.fec_bins =~= s.fec_bins);
    assert forall|i: int| 0 <= i < 4 implies t.raw_lane_errors[i] == s.raw_lane_errors[i] by {
        assert(f[20 + i] == spec_u64_text(s.raw_lane_errors[i] as int));
        lemma_u64_text_round_trip(s.raw_lane_errors[i]);
    }
    assert(t.raw_lane_errors =~= s.raw_lane_errors);
    assert(spec_parse_bool(spec_bool_text(s.fault)) == Some(s.fault)) by {
        reveal_strlit("true");
        reveal_strlit("false");
    }
    assert(t == s);
}

/// Reads a record back from its column values; `None` when the shape or a
/// numeric column is malformed.
pub fn from_fields(f: &Vec<String>) -> (r: Option<PortStats>)
    ensures
        (match r {
            Some(ps) => spec_from_fields(f.deep_view()) == Some(ps@),
            None => spec_from_fields(f.deep_view()) is None,
        }),
{
    if f.len() != 32 {
        return None;
    }
    let mut fec: Vec<u64> = Vec::new();
    let mut i: usize = 0;
    while i < 16
        invariant
            0 <= i <= 16,
            f@.len() == 32,
            fec@.len() == i,
            forall|j: int| 0 <= j < i ==> spec_parse_u64(f.deep_view()[4 + j]) == Some(
                #[trigger] fec@[j]),
        decreases 16 - i,
    {
        match parse_u64(f[4 + i].as_str()) {
            Some(v) => { fec.push(v); },
            None => {
                assert(spec_parse_u64(f.deep_view()[4 + i]) is None);
                return None;
            },
        }
        i += 1;
    }
    let mut lanes: Vec<u64> = Vec::new();
    let mut i: usize = 0;
    while i < 4
        invariant
            0 <= i <= 4,
            f@.len() == 32,
            lanes@.len() == i,
            forall|j: int| 0 <= j < i ==> spec_parse_u64(f.deep_view()[20 + j]) == Some(
                #[trigger] lanes@[j]),
        decreases 4 - i,
    {
        match parse_u64(f[20 + i].as_str()) {
            Some(v) => { lanes.push(v); },
            None => {
                assert(spec_parse_u64(f.deep_view()[20 + i]) is None);
                return None;
            },
        }
        i += 1;
    }
    let eff_errs = match parse_u64(f[26].as_str()) {
        Some(v) => v,
        None => {
            return None;
        },
    };
    let fault = if crate::text::str_eq(f[31].as_str(), "true") {
        true
    } else if crate::text::str_eq(f[31].as_str(), "false") {
        false
    } else {
        return None;
    };
    let ps = PortStats {
        host_serial: f[0].clone(),
        hostname: f[1].clone(),
        port: f[2].clone(),
        device: f[3].clone(),
        fec_bins: [fec[0], fec[1], fec[2], fec[3], fec[4], fec[5], fec[6], fec[7], fec[8],
            fec[9], fec[10], fec[11], fec[12], fec[13], fec[14], fec[15]],
        raw_lane_errors: [lanes[0], lanes[1], lanes[2], lanes[3]],
        link_state: f[24].clone(),
        vendor_serial: f[25].clone(),
        effective_physical_errors: eff_errs,
        effective_physical_ber: f[27].clone(),
        raw_physical_ber: f[28].clone(),
        recommendation: f[29].clone(),
        comment: f[30].clone(),
        fault,
    };
    proof {
        let expected = spec_from_fields(f.deep_view())->Some_0;
        assert(ps@.fec_bins =~= expected.fec_bins);
        assert(ps@.raw_lane_errors =~= expected.raw_lane_errors);
    }
    Some(ps)
}

/// The lowercase hexadecimal digit of a value below sixteen.
pub open spec fn hex_char(d: int) -> char {
    if d < 10 { digit_char(d) }
    else if d == 10 { 'a' }
    else if d == 11 { 'b' }
    else if d == 12 { 'c' }
    else if d == 13 { 'd' }
    else if d == 14 { 'e' }
    else { 'f' }
}

/// The JSON escape of one character: quote and backslash get a backslash,
/// control characters a `\u00..` escape, everything else stands as is.
pub open spec fn esc_char(c: char) -> Seq<char> {
    if c == '"' {
        seq!['\\', '"']
    } else if c == '\\' {
        seq!['\\', '\\']
    } else if (c as u32) < 32 {
        seq!['\\', 'u', '0', '0', hex_char(c as u32 as int / 16), hex_char(c as u32 as int % 16)]
    } else {
        seq![c]
    }
}

/// The JSON escape of a whole string.
pub open spec fn spec_escape(s: Seq<char>) -> Seq<char>
    decreases s.len(),
{
    if s.len() == 0 {
        Seq::empty()
    } else {
        esc_char(s[0]) + spec_escape(s.drop_first())
    }
}

/// Escaping distributes over concatenation.
pub proof fn lemma_escape_concat(a: Seq<char>, b: Seq<char>)
    ensures
        spec_escape(a + b) == spec_escape(a) + spec_escape(b),
    decreases a.len(),
{
    if a.len() == 0 {
        assert(a + b =~= b);
        assert(spec_escape(a) + spec_escape(b) =~= spec_escape(b));
    } else {
        assert((a + b).len() > 0);
        assert((a + b)[0] == a[0]);
        assert((a + b).drop_first() =~= a.drop_first() + b);
        lemma_escape_concat(a.drop_first(), b);
        assert(esc_char(a[0]) + (spec_escape(a.drop_first()) + spec_escape(b)) =~= (esc_char(
            a[0]) + spec_escape(a.drop_first())) + spec_escape(b));
    }
}

/// Escapes a string for embedding in a JSON document.
pub fn escape_json(s: &str) -> (r: String)
    ensures
        r@ == spec_escape(s@),
{
    let n = s.unicode_len();
    let mut out = String::new();
    let mut i: usize = 0;
    while i < n
        invariant
            0 <= i <= n,
            n == s@.len(),
            out@ == spec_escape(s@.subrange(0, i as int)),
        decreases n - i,
    {
        let c = s.get_char(i);
        proof {
        reveal_strlit("a");
        reveal_strlit("b");
        reveal_strlit("c");
        reveal_strlit("d");
        reveal_strlit("e");
        reveal_strlit("f");
        reveal_strlit("0");
        reveal_strlit("1");
        reveal_strlit("2");
        reveal_strlit("3");
        reveal_strlit("4");
        reveal_strlit("5");
        reveal_strlit("6");
        reveal_strlit("7");
        reveal_strlit("8");
        reveal_strlit("9");
        reveal_strlit("\\\"");
        reveal_strlit("\\\\");
        reveal_strlit("\\u00");
            let p = s@.subrange(0, i as int);
            let q = s@.subrange(0, (i + 1) as int);
            assert(q =~= p + seq![c]);
            lemma_escape_concat(p, seq![c]);
            assert(seq![c].drop_first() =~= Seq::<char>::empty());
            assert(spec_escape(Seq::<char>::empty()) =~= Seq::<char>::empty());
            assert(seq![c][0] == c);
            assert(spec_escape(seq![c]) == esc_char(c) + spec_escape(Seq::<char>::empty()));
            assert(spec_escape(seq![c]) =~= esc_char(c));
        }
        if c == '"' {
            out.append("\\\"");
            assert(out@ =~= spec_escape(s@.subrange(0, (i + 1) as int)));
        } else if c == '\\' {
            out.append("\\\\");
            assert(out@ =~= spec_escape(s@.subrange(0, (i + 1) as int)));
        } else if (c as u32) < 32 {
            let cu = c as u32;
            out.append("\\u00");
            let hi = if cu / 16 == 0 { "0" } else { "1" };
            out.append(hi);
            let lo = match cu % 16 {
                0 => "0",
                1 => "1",
                2 => "2",
                3 => "3",
                4 => "4",
                5 => "5",
                6 => "6",
                7 => "7",
                8 => "8",
                9 => "9",
                10 => "a",
                11 => "b",
                12 => "c",
                13 => "d",
                14 => "e",
                _ => "f",
            };
            out.append(lo);
            assert(out@ =~= spec_escape(s@.subrange(0, (i + 1) as int)));
        } else {
            let piece = s.substring_char(i, i + 1);
            proof {
                assert(piece@ =~= seq![c]);
            }
            out.append(piece);
            assert(out@ =~= spec_escape(s@.subrange(0, (i + 1) as int)));
        }
        i += 1;
    }
    proof {
        assert(s@.subrange(0, n as int) =~= s@);
    }
    out
}

/// The JSON object for one record, keys in the report's wire order.
#[verifier::opaque]
pub open spec fn spec_render_record(s: PortStatsV) -> Seq<char> {
    "{\"host_serial\":\""@ + spec_escape(s.host_serial)
        + "\",\"hostname\":\""@ + spec_escape(s.hostname)
        + "\",\"port\":\""@ + spec_escape(s.port)
        + "\",\"device\":\""@ + spec_escape(s.device)
        + "\",\"fec_bin_0\":"@ + spec_u64_text(s.fec_bins[0] as int)
        + ",\"fec_bin_1\":"@ + spec_u64_text(s.fec_bins[1] as int)
        + ",\"fec_bin_2\":"@ + spec_u64_text(s.fec_bins[2] as int)
        + ",\"fec_bin_3\":"@ + spec_u64_text(s.fec_bins[3] as int)
        + ",\"fec_bin_4\":"@ + spec_u64_text(s.fec_bins[4] as int)
        + ",\"fec_bin_5\":"@ + spec_u64_text(s.fec_bins[5] as int)
        + ",\"fec_bin_6\":"@ + spec_u64_text(s.fec_bins[6] as int)
        + ",\"fec_bin_7\":"@ + spec_u64_text(s.fec_bins[7] as int)
        + ",\"fec_bin_8\":"@ + spec_u64_text(s.fec_bins[8] as int)
        + ",\"fec_bin_9\":"@ + spec_u64_text(s.fec_bins[9] as int)
        + ",\"fec_bin_10\":"@ + spec_u64_text(s.fec_bins[10] as int)
        + ",\"fec_bin_11\":"@ + spec_u64_text(s.fec_bins[11] as int)
        + ",\"fec_bin_12\":"@ + spec_u64_text(s.fec_bins[12] as int)
        + ",\"fec_bin_13\":"@ + spec_u64_text(s.fec_bins[13] as int)
        + ",\"fec_bin_14\":"@ + spec_u64_text(s.fec_bins[14] as int)
        + ",\"fec_bin_15\":"@ + spec_u64_text(s.fec_bins[15] as int)
        + ",\"raw_physical_errors_per_lane_0\":"@ + spec_u64_text(s.raw_lane_errors[0] as int)
        + ",\"raw_physical_errors_per_lane_1\":"@ + spec_u64_text(s.raw_lane_errors[1] as int)
        + ",\"raw_physical_errors_per_lane_2\":"@ + spec_u64_text(s.raw_lane_errors[2] as int)
        + ",\"raw_physical_errors_per_lane_3\":"@ + spec_u64_text(s.raw_lane_errors[3] as int)
        + ",\"link_state\":\""@ + spec_escape(s.link_state)
        + "\",\"vendor_serial\":\""@ + spec_escape(s.vendor_serial)
        + "\",\"effective_physical_errors\":"@ + spec_u64_text(s.effective_physical_errors as int)
        + ",\"effective_physical_ber\":\""@ + spec_escape(s.effective_physical_ber)
        + "\",\"raw_physical_ber\":\""@ + spec_escape(s.raw_physical_ber)
        + "\",\"recommedation\":\""@ + spec_escape(s.recommendation)
        + "\",\"comments\":\""@ + spec_escape(s.comment)
        + "\",\"error\":"@ + spec_bool_text(s.fault)
        + "}"@
}

/// Renders one record as a JSON object.
#[verifier::rlimit(60)]
pub fn render_record(ps: &PortStats) -> (r: String)
    ensures
        r@ == spec_render_record(ps@),
{
    let mut out = String::from_str("{\"host_serial\":\"");
    out.append(escape_json(ps.host_serial.as_str()).as_str());
    out.append("\",\"hostname\":\"");
    out.append(escape_json(ps.hostname.as_str()).as_str());
    out.append("\",\"port\":\"");
    out.append(escape_json(ps.port.as_str()).as_str());
    out.append("\",\"device\":\"");
    out.append(escape_json(ps.device.as_str()).as_str());
    out.append("\",\"fec_bin_0\":");
    out.append(u64_to_string(ps.fec_bins[0]).as_str());
    out.append(",\"fec_bin_1\":");
    out.append(u64_to_string(ps.fec_bins[1]).as_str());
    out.append(",\"fec_bin_2\":");
    out.append(u64_to_string(ps.fec_bins[2]).as_str());
    out.append(",\"fec_bin_3\":");
    out.append(u64_to_string(ps.fec_bins[3]).as_str());
    out.append(",\"fec_bin_4\":");
    out.append(u64_to_string(ps.fec_bins[4]).as_str());
    out.append(",\"fec_bin_5\":");
    out.append(u64_to_string(ps.fec_bins[5]).as_str());
    out.append(",\"fec_bin_6\":");
    out.append(u64_to_string(ps.fec_bins[6]).as_str());
    out.append(",\"fec_bin_7\":");
    out.append(u64_to_string(ps.fec_bins[7]).as_str());
    out.append(",\"fec_bin_8\":");
    out.append(u64_to_string(ps.fec_bins[8]).as_str());
    out.append(",\"fec_bin_9\":");
    out.append(u64_to_string(ps.fec_bins[9]).as_str());
    out.append(",\"fec_bin_10\":");
    out.append(u64_to_string(ps.fec_bins[10]).as_str());
    out.append(",\"fec_bin_11\":");
    out.append(u64_to_string(ps.fec_bins[11]).as_str());
    out.append(",\"fec_bin_12\":");
    out.append(u64_to_string(ps.fec_bins[12]).as_str());
    out.append(",\"fec_bin_13\":");
    out.append(u64_to_string(ps.fec_bins[13]).as_str());
    out.append(",\"fec_bin_14\":");
    out.append(u64_to_string(ps.fec_bins[14]).as_str());
    out.append(",\"fec_bin_15\":");
    out.append(u64_to_string(ps.fec_bins[15]).as_str());
    out.append(",\"raw_physical_errors_per_lane_0\":");
    out.append(u64_to_string(ps.raw_lane_errors[0]).as_str());
    out.append(",\"raw_physical_errors_per_lane_1\":");
    out.append(u64_to_string(ps.raw_lane_errors[1]).as_str());
    out.append(",\"raw_physical_errors_per_lane_2\":");
    out.append(u64_to_string(ps.raw_lane_errors[2]).as_str());
    out.append(",\"raw_physical_errors_per_lane_3\":");
    out.append(u64_to_string(ps.raw_lane_errors[3]).as_str());
    out.append(",\"link_state\":\"");
    out.append(escape_json(ps.link_state.as_str()).as_str());
    out.append("\",\"vendor_serial\":\"");
    out.append(escape_json(ps.vendor_serial.as_str()).as_str());
    out.append("\",\"effective_physical_errors\":");
    out.append(u64_to_string(ps.effective_physical_errors).as_str());
    out.append(",\"effective_physical_ber\":\"");
    out.append(escape_json(ps.effective_physical_ber.as_str()).as_str());
    out.append("\",\"raw_physical_ber\":\"");
    out.append(escape_json(ps.raw_physical_ber.as_str()).as_str());
    out.append("\",\"recommedation\":\"");
    out.append(escape_json(ps.recommendation.as_str()).as_str());
    out.append("\",\"comments\":\"");
    out.append(escape_json(ps.comment.as_str()).as_str());
    out.append("\",\"error\":");
    out.append(if ps.fault { "true" } else { "false" });
    out.append("}");
    proof {
        reveal(spec_render_record);
    }
    assert(out@ == spec_render_record(ps@));
    out
}

/// The element list of the report document, from record `i` on.
pub open spec fn spec_json_body(rs: Seq<PortStats>, i: int) -> Seq<char>
    decreases rs.len() - i,
{
    if i < 0 || i >= rs.len() {
        Seq::empty()
    } else if i == 0 {
        spec_render_record(rs[0]@) + spec_json_body(rs, 1)
    } else {
        ","@ + spec_render_record(rs[i]@) + spec_json_body(rs, i + 1)
    }
}

/// The whole report as one JSON array document of fully fielded records.
pub open spec fn spec_render_json(rs: Seq<PortStats>) -> Seq<char> {
    "["@ + spec_json_body(rs, 0) + "]"@
}

/// Renders the assembled report as a JSON array document.
pub fn render_json(rs: &Vec<PortStats>) -> (r: String)
    ensures
        r@ == spec_render_json(rs@),
{
    let mut out = String::from_str("[");
    let n = rs.len();
    let mut i: usize = 0;
    while i < n
        invariant
            0 <= i <= n,
            n == rs@.len(),
            out@ + spec_json_body(rs@, i as int) == "["@ + spec_json_body(rs@, 0),
        decreases n - i,
    {
        let ghost before = out@;
        if i > 0 {
            out.append(",");
        }
        let rec = render_record(&rs[i]);
        out.append(rec.as_str());
        proof {
            if i == 0 {
                assert(spec_json_body(rs@, 0) == spec_render_record(rs@[0]@) + spec_json_body(
                    rs@, 1));
                assert(out@ + spec_json_body(rs@, 1) =~= before + spec_json_body(rs@, 0));
            } else {
                assert(spec_json_body(rs@, i as int) == ","@ + spec_render_record(rs@[
                    i as int]@) + spec_json_body(rs@, i + 1));
                assert(out@ + spec_json_body(rs@, i + 1) =~= before + spec_json_body(rs@,
                    i as int));
            }
        }
        i += 1;
    }
    out.append("]");
    proof {
        assert(spec_json_body(rs@, n as int) =~= Seq::<char>::empty());
        assert(out@ =~= spec_render_json(rs@));
    }
    out
}

} // verus!
