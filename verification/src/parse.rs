//! Extraction of the fixed field set from a raw telemetry document into a
//! fully populated [`PortStats`] record.
//!
//! Every field has one exact location in the document hierarchy. A missing
//! location or a non-numeric value at a numeric location fails the whole
//! record with a [`ParseError`] naming the first field, in extraction
//! order, that fell short; partial records are never produced.

use vstd::prelude::*;

use crate::raw::{spec_get, spec_elem, spec_as_text, spec_display_text, RawDoc, get, elem,
    as_text, display_text};
use crate::stats::{HostContext, HostContextV, ParseError, PortIdentity, PortIdentityV,
    PortStats, PortStatsV};
use crate::text::{spec_parse_u64, parse_u64};

verus! {

/// The document node for `key` inside section `sec`.
pub open spec fn spec_field(doc: RawDoc, sec: Seq<char>, key: Seq<char>) -> Option<RawDoc> {
    match spec_get(doc, sec) {
        Some(s) => spec_get(s, key),
        None => None,
    }
}

/// A scalar numeric field: the display text at `sec`/`key`, read as `u64`.
pub open spec fn spec_num_field(doc: RawDoc, sec: Seq<char>, key: Seq<char>) -> Option<u64> {
    match spec_field(doc, sec, key) {
        Some(f) => match spec_display_text(f) {
            Some(t) => spec_parse_u64(t),
            None => None,
        },
        None => None,
    }
}

/// A string field: the text leaf at `sec`/`key`.
pub open spec fn spec_text_field(doc: RawDoc, sec: Seq<char>, key: Seq<char>) -> Option<Seq<char>> {
    match spec_field(doc, sec, key) {
        Some(f) => spec_as_text(f),
        None => None,
    }
}

/// An array numeric field: element `i` of the `values` array under
/// `sec`/`key`, read as `u64`.
pub open spec fn spec_num_values(doc: RawDoc, sec: Seq<char>, key: Seq<char>, i: int) -> Option<
    u64,
> {
    match spec_field(doc, sec, key) {
        Some(f) => match spec_get(f, "values"@) {
            Some(vs) => match spec_elem(vs, i) {
                Some(v) => match spec_display_text(v) {
                    Some(t) => spec_parse_u64(t),
                    None => None,
                },
                None => None,
            },
            None => None,
        },
        None => None,
    }
}

fn field<'a>(doc: &'a RawDoc, sec: &str, key: &str) -> (r: Option<&'a RawDoc>)
    ensures
        match r {
            Some(v) => spec_field(*doc, sec@, key@) == Some(*v),
            None => spec_field(*doc, sec@, key@) is None,
        },
{
    match get(doc, sec) {
        Some(s) => get(s, key),
        None => None,
    }
}

fn num_field(doc: &RawDoc, sec: &str, key: &str) -> (r: Option<u64>)
    ensures
        r == spec_num_field(*doc, sec@, key@),
{
    match field(doc, sec, key) {
        Some(f) => match display_text(f) {
            Some(t) => parse_u64(t.as_str()),
            None => None,
        },
        None => None,
    }
}

fn text_field(doc: &RawDoc, sec: &str, key: &str) -> (r: Option<String>)
    ensures
        match r {
            Some(t) => spec_text_field(*doc, sec@, key@) == Some(t@),
            None => spec_text_field(*doc, sec@, key@) is None,
        },
{
    match field(doc, sec, key) {
        Some(f) => match as_text(f) {
            Some(t) => Some(t.clone()),
            None => None,
        },
        None => None,
    }
}

fn num_values(doc: &RawDoc, sec: &str, key: &str, i: usize) -> (r: Option<u64>)
    ensures
        r == spec_num_values(*doc, sec@, key@, i as int),
{
    match field(doc, sec, key) {
        Some(f) => match get(f, "values") {
            Some(vs) => match elem(vs, i) {
                Some(v) => match display_text(v) {
                    Some(t) => parse_u64(t.as_str()),
                    None => None,
                },
                None => None,
            },
            None => None,
        },
        None => None,
    }
}

/// What `parse` produces: the fully populated record, or the name of the
/// first field, in extraction order, that is missing or non-numeric.
pub open spec fn spec_parse(idv: PortIdentityV, doc: RawDoc, hostv: HostContextV) -> Result<
    PortStatsV,
    Seq<char>,
> {
    let phys = "Physical Counters and BER Info"@;
    let fec = "Histogram of FEC Errors"@;
    if spec_num_values(doc, phys, "Raw Physical Errors Per Lane"@, 0) is None {
        Err("raw_physical_errors_per_lane_0"@)
    } else if spec_num_values(doc, phys, "Raw Physical Errors Per Lane"@, 1) is None {
        Err("raw_physical_errors_per_lane_1"@)
    } else if spec_num_values(doc, phys, "Raw Physical Errors Per Lane"@, 2) is None {
        Err("raw_physical_errors_per_lane_2"@)
    } else if spec_num_values(doc, phys, "Raw Physical Errors Per Lane"@, 3) is None {
        Err("raw_physical_errors_per_lane_3"@)
    } else if spec_num_field(doc, phys, "Effective Physical Errors"@) is None {
        Err("effective_physical_errors"@)
    } else if spec_text_field(doc, phys, "Effective Physical BER"@) is None {
        Err("effective_physical_ber"@)
    } else if spec_text_field(doc, phys, "Raw Physical BER"@) is None {
        Err("raw_physical_ber"@)
    } else if spec_text_field(doc, "Module Info"@, "Vendor Serial Number"@) is None {
        Err("vendor_serial"@)
    } else if spec_text_field(doc, "Troubleshooting Info"@, "Recommendation"@) is None {
        Err("recommendation"@)
    } else if spec_text_field(doc, "Operational Info"@, "State"@) is None {
        Err("link_state"@)
    } else if spec_num_values(doc, fec, "Bin 0"@, 1) is None {
        Err("fec_bin_0"@)
    } else if spec_num_values(doc, fec, "Bin 1"@, 1) is None {
        Err("fec_bin_1"@)
    } else if spec_num_values(doc, fec, "Bin 2"@, 1) is None {
        Err("fec_bin_2"@)
    } else if spec_num_values(doc, fec, "Bin 3"@, 1) is None {
        Err("fec_bin_3"@)
    } else if spec_num_values(doc, fec, "Bin 4"@, 1) is None {
        Err("fec_bin_4"@)
    } else if spec_num_values(doc, fec, "Bin 5"@, 1) is None {
        Err("fec_bin_5"@)
    } else if spec_num_values(doc, fec, "Bin 6"@, 1) is None {
        Err("fec_bin_6"@)
    } else if spec_num_values(doc, fec, "Bin 7"@, 1) is None {
        Err("fec_bin_7"@)
    } else if spec_num_values(doc, fec, "Bin 8"@, 1) is None {
        Err("fec_bin_8"@)
    } else if spec_num_values(doc, fec, "Bin 9"@, 1) is None {
        Err("fec_bin_9"@)
    } else if spec_num_values(doc, fec, "Bin 10"@, 1) is None {
        Err("fec_bin_10"@)
    } else if spec_num_values(doc, fec, "Bin 11"@, 1) is None {
        Err("fec_bin_11"@)
    } else if spec_num_values(doc, fec, "Bin 12"@, 1) is None {
        Err("fec_bin_12"@)
    } else if spec_num_values(doc, fec, "Bin 13"@, 1) is None {
        Err("fec_bin_13"@)
    } else if spec_num_values(doc, fec, "Bin 14"@, 1) is None {
        Err("fec_bin_14"@)
    } else if spec_num_values(doc, fec, "Bin 15"@, 1) is None {
        Err("fec_bin_15"@)
    } else {
        Ok(
            (PortStatsV {
                host_serial: hostv.chassis_serial,
                hostname: hostv.hostname,
                port: idv.port,
                device: idv.device,
                fec_bins: Seq::new(16, |i: int| spec_num_values(doc, fec, fec_bin_key(i), 1).unwrap()),
                raw_lane_errors: Seq::new(4, |i: int| spec_num_values(doc, phys,
                    "Raw Physical Errors Per Lane"@, i).unwrap()),
                link_state: spec_text_field(doc, "Operational Info"@, "State"@).unwrap(),
                vendor_serial: spec_text_field(doc, "Module Info"@,
                    "Vendor Serial Number"@).unwrap(),
                effective_physical_errors: spec_num_field(doc, phys,
                    "Effective Physical Errors"@).unwrap(),
                effective_physical_ber: spec_text_field(doc, phys,
                    "Effective Physical BER"@).unwrap(),
                raw_physical_ber: spec_text_field(doc, phys, "Raw Physical BER"@).unwrap(),
                recommendation: spec_text_field(doc, "Troubleshooting Info"@,
                    "Recommendation"@).unwrap(),
                comment: Seq::empty(),
                fault: false,
            }),
        )
    }
}

/// The key of FEC histogram bin `i` in the document.
pub open spec fn fec_bin_key(i: int) -> Seq<char> {
    if i == 0 { "Bin 0"@ }
    else if i == 1 { "Bin 1"@ }
    else if i == 2 { "Bin 2"@ }
    else if i == 3 { "Bin 3"@ }
    else if i == 4 { "Bin 4"@ }
    else if i == 5 { "Bin 5"@ }
    else if i == 6 { "Bin 6"@ }
    else if i == 7 { "Bin 7"@ }
    else if i == 8 { "Bin 8"@ }
    else if i == 9 { "Bin 9"@ }
    else if i == 10 { "Bin 10"@ }
    else if i == 11 { "Bin 11"@ }
    else if i == 12 { "Bin 12"@ }
    else if i == 13 { "Bin 13"@ }
    else if i == 14 { "Bin 14"@ }
    else { "Bin 15"@ }
}

/// Extracts every required field of the record, or fails with the first
/// missing or non-numeric one; never emits a partial record.
#[verifier::rlimit(100)]
#[verifier::spinoff_prover]
pub fn parse(identity: &PortIdentity, doc: &RawDoc, host: &HostContext) -> (r: Result<
    PortStats,
    ParseError,
>)
    ensures
        (match r {
            Ok(ps) => spec_parse(identity@, *doc, host@) == Ok::<PortStatsV, Seq<char>>(ps@),
            Err(e) => spec_parse(identity@, *doc, host@) == Err::<PortStatsV, Seq<char>>(
                e.field@),
        }),
{
    let phys = "Physical Counters and BER Info";
    let fec = "Histogram of FEC Errors";
    let lane = "Raw Physical Errors Per Lane";
    let l0 = match num_values(doc, phys, lane, 0) {
        Some(v) => v,
        None => { return Err(ParseError { field: String::from_str("raw_physical_errors_per_lane_0") }); },
    };
    let l1 = match num_values(doc, phys, lane, 1) {
        Some(v) => v,
        None => { return Err(ParseError { field: String::from_str("raw_physical_errors_per_lane_1") }); },
    };
    let l2 = match num_values(doc, phys, lane, 2) {
        Some(v) => v,
        None => { return Err(ParseError { field: String::from_str("raw_physical_errors_per_lane_2") }); },
    };
    let l3 = match num_values(doc, phys, lane, 3) {
        Some(v) => v,
        None => { return Err(ParseError { field: String::from_str("raw_physical_errors_per_lane_3") }); },
    };
    let eff_errs = match num_field(doc, phys, "Effective Physical Errors") {
        Some(v) => v,
        None => { return Err(ParseError { field: String::from_str("effective_physical_errors") }); },
    };
    let eff_ber = match text_field(doc, phys, "Effective Physical BER") {
        Some(v) => v,
        None => { return Err(ParseError { field: String::from_str("effective_physical_ber") }); },
    };
    let raw_ber = match text_field(doc, phys, "Raw Physical BER") {
        Some(v) => v,
        None => { return Err(ParseError { field: String::from_str("raw_physical_ber") }); },
    };
    let vendor = match text_field(doc, "Module Info", "Vendor Serial Number") {
        Some(v) => v,
        None => { return Err(ParseError { field: String::from_str("vendor_serial") }); },
    };
    let reco = match text_field(doc, "Troubleshooting Info", "Recommendation") {
        Some(v) => v,
        None => { return Err(ParseError { field: String::from_str("recommendation") }); },
    };
    let state = match text_field(doc, "Operational Info", "State") {
        Some(v) => v,
        None => { return Err(ParseError { field: String::from_str("link_state") }); },
    };
    let b0 = match num_values(doc, fec, "Bin 0", 1) {
        Some(v) => v,
        None => { return Err(ParseError { field: String::from_str("fec_bin_0") }); },
    };
    let b1 = match num_values(doc, fec, "Bin 1", 1) {
        Some(v) => v,
        None => { return Err(ParseError { field: String::from_str("fec_bin_1") }); },
    };
    let b2 = match num_values(doc, fec, "Bin 2", 1) {
        Some(v) => v,
        None => { return Err(ParseError { field: String::from_str("fec_bin_2") }); },
    };
    let b3 = match num_values(doc, fec, "Bin 3", 1) {
        Some(v) => v,
        None => { return Err(ParseError { field: String::from_str("fec_bin_3") }); },
    };
    let b4 = match num_values(doc, fec, "Bin 4", 1) {
        Some(v) => v,
        None => { return Err(ParseError { field: String::from_str("fec_bin_4") }); },
    };
    let b5 = match num_values(doc, fec, "Bin 5", 1) {
        Some(v) => v,
        None => { return Err(ParseError { field: String::from_str("fec_bin_5") }); },
    };
    let b6 = match num_values(doc, fec, "Bin 6", 1) {
        Some(v) => v,
        None => { return Err(ParseError { field: String::from_str("fec_bin_6") }); },
    };
    let b7 = match num_values(doc, fec, "Bin 7", 1) {
        Some(v) => v,
        None => { return Err(ParseError { field: String::from_str("fec_bin_7") }); },
    };
    let b8 = match num_values(doc, fec, "Bin 8", 1) {
        Some(v) => v,
        None => { return Err(ParseError { field: String::from_str("fec_bin_8") }); },
    };
    let b9 = match num_values(doc, fec, "Bin 9", 1) {
        Some(v) => v,
        None => { return Err(ParseError { field: String::from_str("fec_bin_9") }); },
    };
    let b10 = match num_values(doc, fec, "Bin 10", 1) {
        Some(v) => v,
        None => { return Err(ParseError { field: String::from_str("fec_bin_10") }); },
    };
    let b11 = match num_values(doc, fec, "Bin 11", 1) {
        Some(v) => v,
        None => { return Err(ParseError { field: String::from_str("fec_bin_11") }); },
    };
    let b12 = match num_values(doc, fec, "Bin 12", 1) {
        Some(v) => v,
        None => { return Err(ParseError { field: String::from_str("fec_bin_12") }); },
    };
    let b13 = match num_values(doc, fec, "Bin 13", 1) {
        Some(v) => v,
        None => { return Err(ParseError { field: String::from_str("fec_bin_13") }); },
    };
    let b14 = match num_values(doc, fec, "Bin 14", 1) {
        Some(v) => v,
        None => { return Err(ParseError { field: String::from_str("fec_bin_14") }); },
    };
    let b15 = match num_values(doc, fec, "Bin 15", 1) {
        Some(v) => v,
        None => { return Err(ParseError { field: String::from_str("fec_bin_15") }); },
    };
    let ps = PortStats {
        host_serial: host.chassis_serial.clone(),
        hostname: host.hostname.clone(),
        port: identity.port.clone(),
        device: identity.device.clone(),
        fec_bins: [b0, b1, b2, b3, b4, b5, b6, b7, b8, b9, b10, b11, b12, b13, b14, b15],
        raw_lane_errors: [l0, l1, l2, l3],
        link_state: state,
        vendor_serial: vendor,
        effective_physical_errors: eff_errs,
        effective_physical_ber: eff_ber,
        raw_physical_ber: raw_ber,
        recommendation: reco,
        comment: String::new(),
        fault: false,
    };
    proof {
        let expected = spec_parse(identity@, *doc, host@)->Ok_0;
        assert(ps@.fec_bins =~= expected.fec_bins);
        assert(ps@.raw_lane_errors =~= expected.raw_lane_errors);
        assert(ps@.comment =~= expected.comment);
    }
    Ok(ps)
}

} // verus!
