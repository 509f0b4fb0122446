//! The request handler's logic: header checks, origin resolution, the
//! parsers, the tally, and response assembly, composed exactly as one
//! request is served. The HTTP boundary outside this crate extracts the
//! peer address and the four header values, hands them in as plain
//! optional strings, and serializes the result.

use vstd::prelude::*;

use crate::counter::RequestCounter;
use crate::error::ApiError;
use crate::models::WhoAmIResponse;
use crate::origin::resolve_ip;
use crate::origin::spec_resolve_ip;
use crate::text::view_opt_str;
use crate::text::view_opt_string;
use crate::utils::lemma_browser_version_needs_match;
use crate::utils::parse_browser;
use crate::utils::parse_language;
use crate::utils::parse_os;
use crate::utils::spec_parse_browser;
use crate::utils::spec_parse_language;
use crate::utils::spec_parse_os;

verus! {

/// Inspect one request and report what the server sees about it.
///
/// The header policy is strict: `User-Agent` and `Accept-Language` are
/// mandatory, checked in that order, and a missing one fails with a
/// 400-status error naming it, leaving the tally unchanged. On success
/// the tally advances by one, the raw header values are echoed verbatim,
/// and every derived field is pinned by the parsers' specifications.
pub fn handle_whoami(
    counter: &mut RequestCounter,
    direct_ip: &str,
    x_forwarded_for: Option<&str>,
    forwarded: Option<&str>,
    user_agent: Option<&str>,
    accept_language: Option<&str>,
) -> (r: Result<WhoAmIResponse, ApiError>)
    requires
        old(counter)@ < u64::MAX,
    ensures
        (r is Ok) <==> (user_agent is Some && accept_language is Some),
        r is Ok ==> final(counter)@ == old(counter)@ + 1,
        r is Err ==> final(counter)@ == old(counter)@,
        user_agent is None ==> r is Err && r->Err_0.status == 400 && r->Err_0.message@
            == "Missing required header: User-Agent"@,
        user_agent is Some && accept_language is None ==> r is Err && r->Err_0.status == 400
            && r->Err_0.message@ == "Missing required header: Accept-Language"@,
        r is Ok ==> r->Ok_0.total_requests == final(counter)@,
        r is Ok ==> r->Ok_0.ipaddress@ == spec_resolve_ip(
            view_opt_str(x_forwarded_for),
            view_opt_str(forwarded),
            direct_ip@,
        ),
        r is Ok ==> view_opt_string(r->Ok_0.language) == view_opt_str(accept_language),
        r is Ok ==> view_opt_string(r->Ok_0.software) == view_opt_str(user_agent),
        r is Ok ==> r->Ok_0.os is Some && r->Ok_0.os->Some_0@ == spec_parse_os(
            user_agent->Some_0@,
        ),
        r is Ok ==> r->Ok_0.browser_name is Some && r->Ok_0.browser_name->Some_0@
            == spec_parse_browser(user_agent->Some_0@).0,
        r is Ok ==> ((r->Ok_0.browser_version is Some) <==> (spec_parse_browser(
            user_agent->Some_0@,
        ).1 is Some)),
        r is Ok ==> (r->Ok_0.browser_version is Some ==> r->Ok_0.browser_version->Some_0@
            == spec_parse_browser(user_agent->Some_0@).1->Some_0),
        r is Ok ==> r->Ok_0.parsed_language is Some && r->Ok_0.parsed_language->Some_0@
            == spec_parse_language(accept_language->Some_0@),
        r is Ok ==> (r->Ok_0.browser_version is Some ==> r->Ok_0.browser_name->Some_0@
            != "Other"@),
{
    let ua = match user_agent {
        Some(u) => u,
        None => {
            return Err(ApiError::new(400, "Missing required header: User-Agent"));
        },
    };
    let lang = match accept_language {
        Some(l) => l,
        None => {
            return Err(ApiError::new(400, "Missing required header: Accept-Language"));
        },
    };
    let ip = resolve_ip(x_forwarded_for, forwarded, direct_ip);
    let parsed_language = parse_language(lang);
    let os = parse_os(ua);
    let (browser_name, browser_version) = parse_browser(ua);
    proof {
        lemma_browser_version_needs_match(ua@);
    }
    let total = counter.next();
    Ok(
        WhoAmIResponse {
            total_requests: total,
            ipaddress: ip,
            language: Some(lang.to_owned()),
            software: Some(ua.to_owned()),
            os: os,
            browser_name: browser_name,
            browser_version: browser_version,
            parsed_language: parsed_language,
        },
    )
}

} // verus!
