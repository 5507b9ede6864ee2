//! End-to-end tests of the parse → evaluate → assemble pipeline.

use linkhealth::assemble::assemble;
use linkhealth::collect::{decode_telemetry, diagnostic_command, error_record};
use linkhealth::evaluate::evaluate;
use linkhealth::parse::parse;
use linkhealth::raw::RawDoc;
use linkhealth::stats::{CollectionError, HostContext, PortIdentity, PortStats};

fn obj(entries: Vec<(&str, RawDoc)>) -> RawDoc {
    RawDoc::Object(entries.into_iter().map(|(k, v)| (k.to_string(), v)).collect())
}

fn num(n: u64) -> RawDoc {
    RawDoc::Scalar(n.to_string())
}

fn text(s: &str) -> RawDoc {
    RawDoc::Text(s.to_string())
}

fn values(items: Vec<RawDoc>) -> RawDoc {
    obj(vec![("values", RawDoc::List(items))])
}

/// A healthy telemetry document, which individual tests then perturb.
fn healthy_doc() -> RawDoc {
    let mut fec_bins = Vec::new();
    for i in 0..16 {
        // values[0] carries a bin label; the count is values[1]
        fec_bins.push((
            format!("Bin {}", i),
            values(vec![text("label"), num(0)]),
        ));
    }
    obj(vec![
        (
            "Physical Counters and BER Info",
            obj(vec![
                ("Raw Physical Errors Per Lane", values(vec![num(0), num(0), num(0), num(0)])),
                ("Effective Physical Errors", num(0)),
                ("Effective Physical BER", text("15E-255")),
                ("Raw Physical BER", text("0.0")),
            ]),
        ),
        ("Module Info", obj(vec![("Vendor Serial Number", text("MT0001"))])),
        ("Troubleshooting Info", obj(vec![("Recommendation", text("No issue observed"))])),
        ("Operational Info", obj(vec![("State", text("Active"))])),
        ("Histogram of FEC Errors", RawDoc::Object(fec_bins)),
    ])
}

fn identity(device: &str, port: &str) -> PortIdentity {
    PortIdentity { device: device.to_string(), port: port.to_string() }
}

fn host() -> HostContext {
    HostContext { chassis_serial: "CHS123".to_string(), hostname: "node01".to_string() }
}

fn set_field(doc: &mut RawDoc, section: &str, key: &str, value: RawDoc) {
    if let RawDoc::Object(entries) = doc {
        for (k, v) in entries.iter_mut() {
            if k == section {
                if let RawDoc::Object(fields) = v {
                    for (fk, fv) in fields.iter_mut() {
                        if fk == key {
                            *fv = value;
                            return;
                        }
                    }
                }
            }
        }
    }
    panic!("field not found");
}

fn pipeline(doc: &RawDoc, dev: &str, port: &str) -> PortStats {
    let parsed = parse(&identity(dev, port), doc, &host()).expect("parse");
    evaluate(parsed).expect("evaluate")
}

#[test]
fn healthy_port_has_no_fault_and_empty_comment() {
    let ps = pipeline(&healthy_doc(), "rdma0", "mlx5_0");
    assert_eq!(ps.fault, false);
    assert_eq!(ps.comment, "");
    assert_eq!(ps.link_state, "\u{2705} Active");
    assert_eq!(ps.host_serial, "CHS123");
    assert_eq!(ps.hostname, "node01");
    assert_eq!(ps.vendor_serial, "MT0001");
    assert_eq!(ps.effective_physical_ber, "15E-255");
}

#[test]
fn link_down_sets_fault_and_comment() {
    let mut doc = healthy_doc();
    set_field(&mut doc, "Operational Info", "State", text("Down"));
    let ps = pipeline(&doc, "rdma0", "mlx5_0");
    assert!(ps.fault);
    assert_eq!(ps.comment, "Link is down");
    assert!(ps.link_state.contains("Down"));
    assert!(ps.link_state.starts_with("\u{274c}"));
}

#[test]
fn fec_bin_8_errors_set_fault_and_name_bin_8() {
    let mut doc = healthy_doc();
    set_field(
        &mut doc,
        "Histogram of FEC Errors",
        "Bin 8",
        values(vec![text("label"), num(3)]),
    );
    let ps = pipeline(&doc, "rdma0", "mlx5_0");
    assert!(ps.fault);
    assert_eq!(ps.comment, "\u{274c} FEC[8] errors detected");
}

#[test]
fn high_raw_ber_sets_fault() {
    let mut doc = healthy_doc();
    set_field(&mut doc, "Physical Counters and BER Info", "Raw Physical BER", text("2.5e-9"));
    let ps = pipeline(&doc, "rdma0", "mlx5_0");
    assert!(ps.fault);
    assert_eq!(ps.comment, "\u{274c} Physical BER is high");
}

#[test]
fn physical_errors_set_fault() {
    let mut doc = healthy_doc();
    set_field(&mut doc, "Physical Counters and BER Info", "Effective Physical Errors", num(7));
    let ps = pipeline(&doc, "rdma0", "mlx5_0");
    assert!(ps.fault);
    assert_eq!(ps.comment, "\u{274c} Physical errors detected");
    assert_eq!(ps.effective_physical_errors, 7);
}

#[test]
fn last_matching_rule_wins_the_comment_but_any_rule_faults() {
    let mut doc = healthy_doc();
    set_field(&mut doc, "Operational Info", "State", text("Polling"));
    set_field(
        &mut doc,
        "Histogram of FEC Errors",
        "Bin 9",
        values(vec![text("label"), num(1)]),
    );
    let ps = pipeline(&doc, "rdma0", "mlx5_0");
    assert!(ps.fault);
    assert_eq!(ps.comment, "\u{274c} FEC[9] errors detected");
}

#[test]
fn missing_field_is_a_parse_error_naming_the_field() {
    let mut doc = healthy_doc();
    set_field(&mut doc, "Module Info", "Vendor Serial Number", num(5));
    let err = parse(&identity("rdma0", "mlx5_0"), &doc, &host()).unwrap_err();
    assert_eq!(err.field, "vendor_serial");
}

#[test]
fn non_numeric_counter_is_a_parse_error_naming_the_field() {
    let mut doc = healthy_doc();
    set_field(
        &mut doc,
        "Histogram of FEC Errors",
        "Bin 3",
        values(vec![text("label"), text("many")]),
    );
    let err = parse(&identity("rdma0", "mlx5_0"), &doc, &host()).unwrap_err();
    assert_eq!(err.field, "fec_bin_3");
}

#[test]
fn malformed_ber_text_is_a_parse_error_at_evaluation() {
    let mut doc = healthy_doc();
    set_field(&mut doc, "Physical Counters and BER Info", "Raw Physical BER", text("oops"));
    let parsed = parse(&identity("rdma0", "mlx5_0"), &doc, &host()).expect("parse");
    let err = evaluate(parsed).unwrap_err();
    assert_eq!(err.field, "raw_physical_ber");
}

#[test]
fn natural_sort_orders_embedded_numbers_numerically() {
    let mut records = Vec::new();
    for port in ["port2", "port10", "port1"] {
        records.push(pipeline(&healthy_doc(), "rdma0", port));
    }
    let sorted = assemble(records, false);
    let ports: Vec<&str> = sorted.iter().map(|r| r.port.as_str()).collect();
    assert_eq!(ports, vec!["port1", "port2", "port10"]);
}

#[test]
fn errors_only_filter_keeps_faulty_records() {
    let healthy = pipeline(&healthy_doc(), "rdma0", "mlx5_0");
    let mut down_doc = healthy_doc();
    set_field(&mut down_doc, "Operational Info", "State", text("Down"));
    let faulty = pipeline(&down_doc, "rdma1", "mlx5_1");
    let all = assemble(vec![healthy.clone(), faulty.clone()], false);
    assert_eq!(all.len(), 2);
    let only_errors = assemble(vec![healthy, faulty], true);
    assert_eq!(only_errors.len(), 1);
    assert_eq!(only_errors[0].port, "mlx5_1");
    assert!(only_errors[0].fault);
}

#[test]
fn one_failed_port_does_not_stop_the_others() {
    let ok1 = pipeline(&healthy_doc(), "rdma0", "mlx5_0");
    let ok2 = pipeline(&healthy_doc(), "rdma2", "mlx5_2");
    let failed = CollectionError::Spawn { detail: "no such file".to_string() };
    let degraded = error_record(&identity("rdma1", "mlx5_1"), &host(), failed.message());
    let report = assemble(vec![ok1, degraded, ok2], false);
    assert_eq!(report.len(), 3);
    let failed_row = report.iter().find(|r| r.port == "mlx5_1").expect("surfaced");
    assert!(failed_row.fault);
    assert!(failed_row.comment.contains("failed to start"));
    assert!(failed_row.comment.contains("no such file"));
    assert!(report.iter().filter(|r| !r.fault).count() == 2);
}

#[test]
fn decode_telemetry_extracts_the_payload() {
    let json_text = r#"{"result":{"status":"ok","output":{
        "Physical Counters and BER Info":{
            "Raw Physical Errors Per Lane":{"values":[4,5,6,7]},
            "Effective Physical Errors":"0",
            "Effective Physical BER":"1e-20",
            "Raw Physical BER":"0.0"},
        "Module Info":{"Vendor Serial Number":"MT9999"},
        "Troubleshooting Info":{"Recommendation":"No issue"},
        "Operational Info":{"State":"Active"},
        "Histogram of FEC Errors":{
            "Bin 0":{"values":["l",0]},"Bin 1":{"values":["l",0]},
            "Bin 2":{"values":["l",0]},"Bin 3":{"values":["l",0]},
            "Bin 4":{"values":["l",0]},"Bin 5":{"values":["l",0]},
            "Bin 6":{"values":["l",0]},"Bin 7":{"values":["l",0]},
            "Bin 8":{"values":["l",0]},"Bin 9":{"values":["l",0]},
            "Bin 10":{"values":["l",0]},"Bin 11":{"values":["l",0]},
            "Bin 12":{"values":["l",0]},"Bin 13":{"values":["l",0]},
            "Bin 14":{"values":["l",0]},"Bin 15":{"values":["l",0]}
        }}}}"#;
    let doc = decode_telemetry(json_text).expect("decode");
    let ps = pipeline(&doc, "rdma0", "mlx5_0");
    assert_eq!(ps.raw_lane_errors, [4, 5, 6, 7]);
    assert_eq!(ps.vendor_serial, "MT9999");
    assert!(!ps.fault);
}

#[test]
fn decoding_the_same_text_twice_gives_identical_records() {
    let text = "{\"result\":{\"output\":{\"Operational Info\":{\"State\":\"Active\"}}}}";
    let a = decode_telemetry(text).expect("decode");
    let b = decode_telemetry(text).expect("decode");
    let ra = parse(&identity("rdma0", "mlx5_0"), &a, &host());
    let rb = parse(&identity("rdma0", "mlx5_0"), &b, &host());
    assert_eq!(ra, rb);
}

#[test]
fn empty_or_malformed_output_is_an_invalid_output_error() {
    assert_eq!(decode_telemetry("").unwrap_err(), CollectionError::InvalidOutput);
    assert_eq!(decode_telemetry("not json {").unwrap_err(), CollectionError::InvalidOutput);
}

#[test]
fn payload_free_output_is_a_missing_payload_error() {
    assert_eq!(decode_telemetry("{\"a\":1}").unwrap_err(), CollectionError::MissingPayload);
    assert_eq!(
        decode_telemetry("{\"result\":{\"status\":\"ok\"}}").unwrap_err(),
        CollectionError::MissingPayload
    );
}

#[test]
fn diagnostic_command_binds_the_port_identity() {
    let cmd = diagnostic_command(&identity("rdma0", "mlx5_7"));
    assert_eq!(
        cmd,
        "mlxlink -m -e -c -d mlx5_7 --rx_fec_histogram --show_histogram --json"
    );
}
