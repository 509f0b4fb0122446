//! The value the service reports about a request.

use vstd::prelude::*;

verus! {

/// What the server sees about the caller. `language` and `software` echo
/// the raw header values; the remaining optional fields are derived from
/// them by the parsers.
#[derive(Debug)]
pub struct WhoAmIResponse {
    /// The running total of requests served, starting at 1.
    pub total_requests: u64,
    /// The caller's apparent IP address; never absent.
    pub ipaddress: String,
    /// The raw Accept-Language header value, verbatim.
    pub language: Option<String>,
    /// The raw User-Agent header value, verbatim.
    pub software: Option<String>,
    /// The detected operating-system label.
    pub os: Option<String>,
    /// The detected browser name.
    pub browser_name: Option<String>,
    /// The version token that followed the browser marker.
    pub browser_version: Option<String>,
    /// The primary language tag extracted from `language`.
    pub parsed_language: Option<String>,
}

} // verus!
