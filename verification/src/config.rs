//! Recognition of the output-format flag: exactly three values are
//! accepted, and anything else is a configuration error reported before
//! any work begins.

use vstd::prelude::*;

use crate::stats::{ConfigurationError, OutputFormat};
use crate::text::str_eq;

verus! {

/// The format a flag value names, if any: exactly `table`, `csv`, `json`.
pub open spec fn spec_output_format(s: Seq<char>) -> Option<OutputFormat> {
    if s == "table"@ {
        Some(OutputFormat::Table)
    } else if s == "csv"@ {
        Some(OutputFormat::Csv)
    } else if s == "json"@ {
        Some(OutputFormat::Json)
    } else {
        None
    }
}

/// Accepts exactly the three recognized format names; any other value is
/// a configuration error carrying the rejected text.
pub fn parse_output_format(s: &str) -> (r: Result<OutputFormat, ConfigurationError>)
    ensures
        (match spec_output_format(s@) {
            Some(f) => r == Ok::<OutputFormat, ConfigurationError>(f),
            None => r is Err && (r->Err_0).requested@ == s@,
        }),
{
    if str_eq(s, "table") {
        Ok(OutputFormat::Table)
    } else if str_eq(s, "csv") {
        Ok(OutputFormat::Csv)
    } else if str_eq(s, "json") {
        Ok(OutputFormat::Json)
    } else {
        Err(ConfigurationError { requested: String::from_str(s) })
    }
}

} // verus!
