//! The data model: port identity, host context, the per-port health record,
//! and the error kinds of the pipeline.

use vstd::prelude::*;

verus! {

/// Identity of one monitored link: the adapter device name and its
/// comma-joined InfiniBand port name(s).
#[derive(Clone, Debug, PartialEq)]
pub struct PortIdentity {
    pub device: String,
    pub port: String,
}

/// Spec-level image of a [`PortIdentity`].
pub struct PortIdentityV {
    pub device: Seq<char>,
    pub port: Seq<char>,
}

impl View for PortIdentity {
    type V = PortIdentityV;

    open spec fn view(&self) -> PortIdentityV {
        PortIdentityV { device: self.device@, port: self.port@ }
    }
}

/// Host identity shared read-only by every port's pipeline.
#[derive(Clone, Debug, PartialEq)]
pub struct HostContext {
    pub chassis_serial: String,
    pub hostname: String,
}

/// Spec-level image of a [`HostContext`].
pub struct HostContextV {
    pub chassis_serial: Seq<char>,
    pub hostname: Seq<char>,
}

impl View for HostContext {
    type V = HostContextV;

    open spec fn view(&self) -> HostContextV {
        HostContextV { chassis_serial: self.chassis_serial@, hostname: self.hostname@ }
    }
}

/// The central record: one fully populated health row per port.
///
/// `comment` and `fault` start empty/false and are populated once by the
/// health evaluation; every other field comes from the telemetry document
/// or the identities.
#[derive(Clone, Debug, PartialEq)]
pub struct PortStats {
    pub host_serial: String,
    pub hostname: String,
    pub port: String,
    pub device: String,
    /// 16-bin histogram of FEC symbol-error counts.
    pub fec_bins: [u64; 16],
    /// Raw physical error count per physical lane.
    pub raw_lane_errors: [u64; 4],
    pub link_state: String,
    pub vendor_serial: String,
    pub effective_physical_errors: u64,
    /// Kept as the exact decimal text of the source document.
    pub effective_physical_ber: String,
    /// Kept as the exact decimal text of the source document.
    pub raw_physical_ber: String,
    pub recommendation: String,
    pub comment: String,
    pub fault: bool,
}

/// Spec-level image of a [`PortStats`], field for field.
pub struct PortStatsV {
    pub host_serial: Seq<char>,
    pub hostname: Seq<char>,
    pub port: Seq<char>,
    pub device: Seq<char>,
    pub fec_bins: Seq<u64>,
    pub raw_lane_errors: Seq<u64>,
    pub link_state: Seq<char>,
    pub vendor_serial: Seq<char>,
    pub effective_physical_errors: u64,
    pub effective_physical_ber: Seq<char>,
    pub raw_physical_ber: Seq<char>,
    pub recommendation: Seq<char>,
    pub comment: Seq<char>,
    pub fault: bool,
}

impl View for PortStats {
    type V = PortStatsV;

    open spec fn view(&self) -> PortStatsV {
        PortStatsV {
            host_serial: self.host_serial@,
            hostname: self.hostname@,
            port: self.port@,
            device: self.device@,
            fec_bins: self.fec_bins@,
            raw_lane_errors: self.raw_lane_errors@,
            link_state: self.link_state@,
            vendor_serial: self.vendor_serial@,
            effective_physical_errors: self.effective_physical_errors,
            effective_physical_ber: self.effective_physical_ber@,
            raw_physical_ber: self.raw_physical_ber@,
            recommendation: self.recommendation@,
            comment: self.comment@,
            fault: self.fault,
        }
    }
}

/// A record is well formed when its two fixed-size counter arrays have
/// their nominal lengths.
pub open spec fn stats_wf(s: PortStatsV) -> bool {
    s.fec_bins.len() == 16 && s.raw_lane_errors.len() == 4
}

/// Collecting telemetry for one port failed; the other ports go on.
#[derive(Clone, Debug, PartialEq)]
pub enum CollectionError {
    /// The diagnostic process could not be started; carries the OS detail.
    Spawn { detail: String },
    /// The process ran but its output was not a valid structured document.
    InvalidOutput,
    /// The document was valid but held no diagnostic payload.
    MissingPayload,
}

/// A required field was absent or non-numeric; names the first field, in
/// extraction order, at which the document fell short.
#[derive(Clone, Debug, PartialEq)]
pub struct ParseError {
    pub field: String,
}

/// The requested output format is not one of the recognized values.
#[derive(Clone, Debug, PartialEq)]
pub struct ConfigurationError {
    pub requested: String,
}

/// The three recognized output formats.
#[derive(Clone, Copy, Debug, PartialEq, Eq, Structural)]
pub enum OutputFormat {
    Table,
    Csv,
    Json,
}

} // verus!
