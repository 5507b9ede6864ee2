//! The compute side of telemetry collection: the diagnostic command line
//! for a port, decoding the command's JSON output into the library's
//! document tree, and the degraded record that stands in for a port whose
//! collection failed.
//!
//! Running the command is I/O and lives with the caller; everything after
//! the captured output text is here.

use vstd::prelude::*;

use crate::raw::{spec_get, spec_lookup, RawDoc};
use crate::stats::{CollectionError, HostContext, PortIdentity, PortStats};
use crate::text::str_eq;

verus! {

#[verifier::external_type_specification]
#[verifier::external_body]
pub struct ExJsonValue(json::JsonValue);

/// One level of a parsed JSON node, in the library's terms: a string
/// leaf with its characters, another scalar with its printed text, or a
/// container with its children.
pub enum Shallow {
    Text(String),
    Scalar(String),
    List(Vec<json::JsonValue>),
    Object(Vec<(String, json::JsonValue)>),
}

/// What `json::parse` yields for a text: the parsed document, or
/// nothing for text that is not a JSON document. A function of the text
/// alone.
pub uninterp spec fn parse_of(s: Seq<char>) -> Option<json::JsonValue>;

/// Relies on json::parse: a deterministic, panic-free parse of the text;
/// an empty text fails, as the grammar requires a value.
#[verifier::external_body]
fn parse_json(s: &str) -> (r: Option<json::JsonValue>)
    ensures
        r == parse_of(s@),
        s@.len() == 0 ==> r is None,
{
    json::parse(s).ok()
}

/// What one level of a parsed JSON node holds, in the library's terms.
pub uninterp spec fn level_of(v: json::JsonValue) -> Shallow;

/// Relies on json::JsonValue's accessors (as_str, dump, iteration) to
/// expose one level of a node: its kind, and its text, children or
/// entries. String nodes keep their characters; other scalars their
/// printed text; container children come out in document order.
#[verifier::external_body]
fn shallow(v: &json::JsonValue) -> (r: Shallow)
    ensures
        r == level_of(*v),
{
    match v {
        json::JsonValue::Short(t) => Shallow::Text(t.as_str().to_string()),
        json::JsonValue::String(t) => Shallow::Text(t.clone()),
        json::JsonValue::Array(items) => Shallow::List(items.clone()),
        json::JsonValue::Object(obj) => Shallow::Object(
            obj.iter().map(|(k, w)| (k.to_string(), w.clone())).collect(),
        ),
        _ => Shallow::Scalar(v.dump()),
    }
}

/// How a rebuilt document relates to a parsed node: leaf for leaf and
/// child for child what `level_of` holds, down to `depth` levels; keys
/// compare by their characters.
pub open spec fn rebuilds_to(v: json::JsonValue, depth: nat, d: RawDoc) -> bool
    decreases depth,
{
    depth > 0 && match level_of(v) {
        Shallow::Text(t) => d == RawDoc::Text(t),
        Shallow::Scalar(t) => d == RawDoc::Scalar(t),
        Shallow::List(items) => match d {
            RawDoc::List(out) => out@.len() == items@.len() && (forall|i: int|
                0 <= i < items@.len() ==> rebuilds_to(items@[i], (depth - 1) as nat, out@[i])),
            _ => false,
        },
        Shallow::Object(entries) => match d {
            RawDoc::Object(out) => out@.len() == entries@.len() && (forall|i: int|
                0 <= i < entries@.len() ==> (out@[i].0@ == entries@[i].0@ && rebuilds_to(
                    entries@[i].1, (depth - 1) as nat, out@[i].1))),
            _ => false,
        },
    }
}

/// How many levels the rebuild follows; the telemetry document is four
/// levels deep, so the bound only guards termination.
pub open spec fn rebuild_depth() -> nat {
    32
}

/// Rebuilds the library's document tree from a parsed node: exactly the
/// `rebuilds_to` relation, with `None` exactly when no rebuild within
/// `depth` exists.
fn to_raw(v: &json::JsonValue, depth: u64) -> (r: Option<RawDoc>)
    ensures
        (match r {
            Some(d) => rebuilds_to(*v, depth as nat, d),
            None => forall|d: RawDoc| !rebuilds_to(*v, depth as nat, d),
        }),
    decreases depth,
{
    if depth == 0 {
        return None;
    }
    match shallow(v) {
        Shallow::Text(t) => Some(RawDoc::Text(t)),
        Shallow::Scalar(t) => Some(RawDoc::Scalar(t)),
        Shallow::List(items) => {
            let mut out: Vec<RawDoc> = Vec::new();
            let n = items.len();
            let mut i: usize = 0;
            while i < n
                invariant
                    depth >= 1,
                    0 <= i <= n,
                    n == items@.len(),
                    level_of(*v) == Shallow::List(items),
                    out@.len() == i,
                    forall|j: int| 0 <= j < i ==> rebuilds_to(items@[j], (depth - 1) as nat,
                        out@[j]),
                decreases n - i,
            {
                match to_raw(&items[i], depth - 1) {
                    Some(d) => out.push(d),
                    None => {
                        proof {
                            assert forall|d: RawDoc| !rebuilds_to(*v, depth as nat, d) by {
                                if rebuilds_to(*v, depth as nat, d) {
                                    match d {
                                        RawDoc::List(out2) => {
                                            assert(rebuilds_to(items@[i as int], (depth
                                                - 1) as nat, out2@[i as int]));
                                        },
                                        _ => {},
                                    }
                                }
                            }
                        }
                        return None;
                    },
                }
                i += 1;
            }
            let d = RawDoc::List(out);
            assert(rebuilds_to(*v, depth as nat, d));
            Some(d)
        },
        Shallow::Object(entries) => {
            let mut out: Vec<(String, RawDoc)> = Vec::new();
            let n = entries.len();
            let mut i: usize = 0;
            while i < n
                invariant
                    depth >= 1,
                    0 <= i <= n,
                    n == entries@.len(),
                    level_of(*v) == Shallow::Object(entries),
                    out@.len() == i,
                    forall|j: int| 0 <= j < i ==> (out@[j].0@ == entries@[j].0@ && rebuilds_to(
                        entries@[j].1, (depth - 1) as nat, out@[j].1)),
                decreases n - i,
            {
                match to_raw(&entries[i].1, depth - 1) {
                    Some(d) => {
                        let key = entries[i].0.clone();
                        out.push((key, d));
                    },
                    None => {
                        proof {
                            assert forall|d: RawDoc| !rebuilds_to(*v, depth as nat, d) by {
                                if rebuilds_to(*v, depth as nat, d) {
                                    match d {
                                        RawDoc::Object(out2) => {
                                            assert(rebuilds_to(entries@[i as int].1, (depth
                                                - 1) as nat, out2@[i as int].1));
                                        },
                                        _ => {},
                                    }
                                }
                            }
                        }
                        return None;
                    },
                }
                i += 1;
            }
            let d = RawDoc::Object(out);
            assert(rebuilds_to(*v, depth as nat, d));
            Some(d)
        },
    }
}

/// Moves the child under `key` out of an object document.
pub fn into_field(doc: RawDoc, key: &str) -> (r: Option<RawDoc>)
    ensures
        r == spec_get(doc, key@),
{
    match doc {
        RawDoc::Object(entries) => {
            let mut entries = entries;
            let ghost all = entries@;
            let n = entries.len();
            proof {
                assert(all.subrange(0, n as int) =~= all);
            }
            let mut i: usize = 0;
            while i < n
                invariant
                    0 <= i <= n,
                    n == all.len(),
                    entries@ == all,
                    spec_get(doc, key@) == spec_lookup(all, key@),
                    spec_lookup(all, key@) == spec_lookup(all.subrange(i as int, n as int), key@),
                decreases n - i,
            {
                proof {
                    assert(all.subrange(i as int, n as int).drop_first() =~= all.subrange(
                        (i + 1) as int, n as int));
                    assert(all.subrange(i as int, n as int)[0] == all[i as int]);
                }
                if str_eq(entries[i].0.as_str(), key) {
                    let pair = entries.remove(i);
                    return Some(pair.1);
                }
                i += 1;
            }
            assert(all.subrange(n as int, n as int).len() == 0);
            None
        },
        _ => None,
    }
}

/// How a decode outcome relates to the captured text: text that is no
/// JSON document is an invalid-output failure; a parsed document whose
/// rebuilt tree lacks the `result`/`output` payload is a missing-payload
/// failure; otherwise the payload subtree itself is handed out. The
/// rebuilt tree is fixed by `rebuilds_to` leaf for leaf; the container
/// values it exhibits are bound here, as container equality is not
/// extensional in the logic.
pub open spec fn spec_decode_outcome(s: Seq<char>, r: Result<RawDoc, CollectionError>) -> bool {
    match parse_of(s) {
        None => r == Err::<RawDoc, CollectionError>(CollectionError::InvalidOutput),
        Some(v) => match r {
            Ok(out) => exists|d: RawDoc, res: RawDoc|
                #![trigger spec_get(d, "result"@), spec_get(res, "output"@)]
                rebuilds_to(v, rebuild_depth(), d) && spec_get(d, "result"@) == Some(res)
                    && spec_get(res, "output"@) == Some(out),
            Err(e) => (e == CollectionError::InvalidOutput && (forall|d: RawDoc| !rebuilds_to(
                v, rebuild_depth(), d))) || (e == CollectionError::MissingPayload && (exists|
                d: RawDoc,
            |
                rebuilds_to(v, rebuild_depth(), d) && (match spec_get(d, "result"@) {
                    None => true,
                    Some(res) => spec_get(res, "output"@) is None,
                }))),
        },
    }
}

/// Decodes the diagnostic command's captured output and takes its
/// `result`/`output` payload: the raw telemetry document for one port,
/// exactly as `spec_decode_outcome` maps the text.
pub fn decode_telemetry(text: &str) -> (r: Result<RawDoc, CollectionError>)
    ensures
        spec_decode_outcome(text@, r),
        text@.len() == 0 ==> r == Err::<RawDoc, CollectionError>(CollectionError::InvalidOutput),
{
    let parsed = match parse_json(text) {
        Some(v) => v,
        None => {
            return Err(CollectionError::InvalidOutput);
        },
    };
    let doc = match to_raw(&parsed, 32) {
        Some(d) => d,
        None => {
            return Err(CollectionError::InvalidOutput);
        },
    };
    let ghost gd = doc;
    let result = match into_field(doc, "result") {
        Some(v) => v,
        None => {
            proof {
                assert(rebuilds_to(parse_of(text@)->Some_0, rebuild_depth(), gd));
            }
            return Err(CollectionError::MissingPayload);
        },
    };
    match into_field(result, "output") {
        Some(v) => Ok(v),
        None => Err(CollectionError::MissingPayload),
    }
}

/// The diagnostic command line for one port, with the port identity bound
/// into its arguments and structured output requested.
pub fn diagnostic_command(identity: &PortIdentity) -> (r: String)
    ensures
        r@ == "mlxlink -m -e -c -d "@ + identity@.port
            + " --rx_fec_histogram --show_histogram --json"@,
{
    let mut cmd = String::from_str("mlxlink -m -e -c -d ");
    cmd.append(identity.port.as_str());
    cmd.append(" --rx_fec_histogram --show_histogram --json");
    cmd
}

impl CollectionError {
    /// A human-readable description of the failure.
    pub fn message(&self) -> (r: String)
        ensures
            r@ == self.spec_message(),
    {
        match self {
            CollectionError::Spawn { detail } => {
                let mut m = String::from_str("diagnostic command failed to start: ");
                m.append(detail.as_str());
                m
            },
            CollectionError::InvalidOutput => String::from_str(
                "diagnostic command emitted invalid output"),
            CollectionError::MissingPayload => String::from_str(
                "diagnostic output held no payload"),
        }
    }

    /// The text `message` returns for each failure kind.
    pub open spec fn spec_message(&self) -> Seq<char> {
        match self {
            CollectionError::Spawn { detail } => "diagnostic command failed to start: "@
                + detail@,
            CollectionError::InvalidOutput => "diagnostic command emitted invalid output"@,
            CollectionError::MissingPayload => "diagnostic output held no payload"@,
        }
    }
}

/// The degraded row that surfaces a failed port instead of dropping it:
/// identity and host kept, counters zeroed, fault set, and the failure
/// text as the comment.
pub fn error_record(identity: &PortIdentity, host: &HostContext, detail: String) -> (r: PortStats)
    ensures
        r@.device == identity@.device,
        r@.port == identity@.port,
        r@.host_serial == host@.chassis_serial,
        r@.hostname == host@.hostname,
        r@.comment == detail@,
        r@.fault == true,
        r@.link_state == "unknown"@,
        r@.vendor_serial.len() == 0 && r@.recommendation.len() == 0,
        r@.effective_physical_errors == 0,
        r@.effective_physical_ber == "0"@ && r@.raw_physical_ber == "0"@,
        r@.fec_bins =~= Seq::new(16, |i: int| 0u64),
        r@.raw_lane_errors =~= Seq::new(4, |i: int| 0u64),
{
    PortStats {
        host_serial: host.chassis_serial.clone(),
        hostname: host.hostname.clone(),
        port: identity.port.clone(),
        device: identity.device.clone(),
        fec_bins: [0, 0, 0, 0, 0, 0, 0, 0, 0, 0, 0, 0, 0, 0, 0, 0],
        raw_lane_errors: [0, 0, 0, 0],
        link_state: String::from_str("unknown"),
        vendor_serial: String::new(),
        effective_physical_errors: 0,
        effective_physical_ber: String::from_str("0"),
        raw_physical_ber: String::from_str("0"),
        recommendation: String::new(),
        comment: detail,
        fault: true,
    }
}

} // verus!
