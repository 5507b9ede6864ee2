//! Tests of the threshold decimal comparison, the record serialization
//! round trips, and the output-format configuration.

use linkhealth::codec::{from_fields, render_json, to_fields, u64_to_string};
use linkhealth::config::parse_output_format;
use linkhealth::decimal::ber_above_threshold;
use linkhealth::stats::{OutputFormat, PortStats};
use linkhealth::text::parse_u64;

fn record(port: &str, fault: bool) -> PortStats {
    PortStats {
        host_serial: "CHS123".to_string(),
        hostname: "node01".to_string(),
        port: port.to_string(),
        device: "rdma0".to_string(),
        fec_bins: [0, 1, 2, 3, 4, 5, 6, 7, 8, 9, 10, 11, 12, 13, 14, 15],
        raw_lane_errors: [9, 8, 7, 6],
        link_state: "\u{2705} Active".to_string(),
        vendor_serial: "MT0001".to_string(),
        effective_physical_errors: 0,
        effective_physical_ber: "15E-255".to_string(),
        raw_physical_ber: "0.0".to_string(),
        recommendation: "No issue, \"quoted\" \\ text".to_string(),
        comment: "".to_string(),
        fault,
    }
}

#[test]
fn ber_comparison_is_exact_around_the_threshold() {
    assert_eq!(ber_above_threshold("0.0"), Some(false));
    assert_eq!(ber_above_threshold("1e-9"), Some(false));
    assert_eq!(ber_above_threshold("1.0e-9"), Some(false));
    assert_eq!(ber_above_threshold("0.0000000010"), Some(false));
    assert_eq!(ber_above_threshold("0.0000000011"), Some(true));
    assert_eq!(ber_above_threshold("1.0000001e-9"), Some(true));
    assert_eq!(ber_above_threshold("2e-10"), Some(false));
    assert_eq!(ber_above_threshold("2e-9"), Some(true));
    assert_eq!(ber_above_threshold("15e-10"), Some(true));
    assert_eq!(ber_above_threshold("15E-255"), Some(false));
    assert_eq!(ber_above_threshold("1"), Some(true));
    assert_eq!(ber_above_threshold("+0.5"), Some(true));
    assert_eq!(ber_above_threshold("-3.0"), Some(false));
    assert_eq!(ber_above_threshold("1e99999999999999999999"), Some(true));
    assert_eq!(ber_above_threshold("1e-99999999999999999999"), Some(false));
}

#[test]
fn ber_comparison_rejects_non_decimal_text() {
    assert_eq!(ber_above_threshold(""), None);
    assert_eq!(ber_above_threshold("oops"), None);
    assert_eq!(ber_above_threshold("."), None);
    assert_eq!(ber_above_threshold("1e"), None);
    assert_eq!(ber_above_threshold("1e+"), None);
    assert_eq!(ber_above_threshold("1.2.3"), None);
}

#[test]
fn u64_text_round_trips() {
    assert_eq!(u64_to_string(0), "0");
    assert_eq!(u64_to_string(42), "42");
    assert_eq!(u64_to_string(u64::MAX), "18446744073709551615");
    assert_eq!(parse_u64("18446744073709551615"), Some(u64::MAX));
    assert_eq!(parse_u64("18446744073709551616"), None);
    assert_eq!(parse_u64(""), None);
    assert_eq!(parse_u64("12a"), None);
    assert_eq!(parse_u64("007"), Some(7));
}

#[test]
fn fields_round_trip_field_for_field() {
    let ps = record("mlx5_3", true);
    let fields = to_fields(&ps);
    assert_eq!(fields.len(), 32);
    assert_eq!(fields[0], "CHS123");
    assert_eq!(fields[31], "true");
    let back = from_fields(&fields).expect("round trip");
    assert_eq!(back, ps);
}

#[test]
fn malformed_fields_are_rejected() {
    let ps = record("mlx5_3", false);
    let mut fields = to_fields(&ps);
    fields[26] = "not a number".to_string();
    assert_eq!(from_fields(&fields), None);
    let short: Vec<String> = Vec::new();
    assert_eq!(from_fields(&short), None);
}

#[test]
fn json_document_parses_back_to_equal_records() {
    let records = vec![record("mlx5_0", false), record("mlx5_1", true)];
    let rendered = render_json(&records);
    let parsed: serde_json::Value = serde_json::from_str(&rendered).expect("valid JSON");
    let rows = parsed.as_array().expect("array");
    assert_eq!(rows.len(), 2);
    for (row, ps) in rows.iter().zip(records.iter()) {
        assert_eq!(row["host_serial"].as_str().unwrap(), ps.host_serial);
        assert_eq!(row["hostname"].as_str().unwrap(), ps.hostname);
        assert_eq!(row["port"].as_str().unwrap(), ps.port);
        assert_eq!(row["device"].as_str().unwrap(), ps.device);
        for i in 0..16 {
            let key = format!("fec_bin_{}", i);
            assert_eq!(row[&key].as_u64().unwrap(), ps.fec_bins[i]);
        }
        for i in 0..4 {
            let key = format!("raw_physical_errors_per_lane_{}", i);
            assert_eq!(row[&key].as_u64().unwrap(), ps.raw_lane_errors[i]);
        }
        assert_eq!(row["link_state"].as_str().unwrap(), ps.link_state);
        assert_eq!(row["vendor_serial"].as_str().unwrap(), ps.vendor_serial);
        assert_eq!(
            row["effective_physical_errors"].as_u64().unwrap(),
            ps.effective_physical_errors
        );
        assert_eq!(row["effective_physical_ber"].as_str().unwrap(), ps.effective_physical_ber);
        assert_eq!(row["raw_physical_ber"].as_str().unwrap(), ps.raw_physical_ber);
        assert_eq!(row["recommedation"].as_str().unwrap(), ps.recommendation);
        assert_eq!(row["comments"].as_str().unwrap(), ps.comment);
        assert_eq!(row["error"].as_bool().unwrap(), ps.fault);
    }
}

#[test]
fn json_escaping_covers_quotes_and_control_characters() {
    let mut ps = record("mlx5_0", false);
    ps.comment = "tab\there \"and\" back\\slash \u{1}".to_string();
    let rendered = render_json(&vec![ps.clone()]);
    let parsed: serde_json::Value = serde_json::from_str(&rendered).expect("valid JSON");
    assert_eq!(parsed[0]["comments"].as_str().unwrap(), ps.comment);
}

#[test]
fn empty_report_renders_an_empty_array() {
    let rendered = render_json(&Vec::new());
    assert_eq!(rendered, "[]");
}

#[test]
fn unknown_output_format_is_a_configuration_error() {
    let err = parse_output_format("xml").unwrap_err();
    assert_eq!(err.requested, "xml");
    assert!(parse_output_format("").is_err());
    assert!(parse_output_format("Table").is_err());
}

#[test]
fn the_three_recognized_formats_parse() {
    assert_eq!(parse_output_format("table"), Ok(OutputFormat::Table));
    assert_eq!(parse_output_format("csv"), Ok(OutputFormat::Csv));
    assert_eq!(parse_output_format("json"), Ok(OutputFormat::Json));
}
