//! The header parsers: operating system and browser detection from a
//! User-Agent value, and the primary language tag from an Accept-Language
//! value. Each parser is total: it never fails on any input string.

use vstd::prelude::*;
use vstd::string::StrSliceExecFns;

use crate::text::contains_pat;
use crate::text::contains_sub;
use crate::text::find_char;
use crate::text::find_char_in;
use crate::text::find_pat;
use crate::text::find_space;
use crate::text::find_space_in;
use crate::text::find_sub;
use crate::text::lemma_find_from;
use crate::text::match_at;
use crate::text::skip_spaces;
use crate::text::skip_spaces_in;
use crate::text::spec_trim;
use crate::text::trim_str;

verus! {

/// The operating-system label for a User-Agent value: the first of the
/// fixed markers that occurs anywhere in it, in this priority order, or
/// the fallback label when none occurs.
pub open spec fn spec_parse_os(ua: Seq<char>) -> Seq<char> {
    if contains_pat(ua, "Windows"@) {
        "Windows"@
    } else if contains_pat(ua, "Mac OS X"@) {
        "macOS"@
    } else if contains_pat(ua, "Linux"@) {
        "Linux"@
    } else if contains_pat(ua, "Android"@) {
        "Android"@
    } else if contains_pat(ua, "iOS"@) {
        "iOS"@
    } else {
        "Other"@
    }
}

/// Detect the operating system named by a User-Agent value. Always
/// succeeds; an unrecognized value maps to `"Other"`.
pub fn parse_os(user_agent: &str) -> (r: Option<String>)
    ensures
        r is Some,
        r->Some_0@ == spec_parse_os(user_agent@),
{
    if contains_sub(user_agent, "Windows") {
        Some("Windows".to_owned())
    } else if contains_sub(user_agent, "Mac OS X") {
        Some("macOS".to_owned())
    } else if contains_sub(user_agent, "Linux") {
        Some("Linux".to_owned())
    } else if contains_sub(user_agent, "Android") {
        Some("Android".to_owned())
    } else if contains_sub(user_agent, "iOS") {
        Some("iOS".to_owned())
    } else {
        Some("Other".to_owned())
    }
}

/// The version token that starts at or after `v`: leading whitespace is
/// skipped, the token runs to the next whitespace, and only the part
/// before the token's first `/` is kept. `None` when only whitespace
/// remains.
pub open spec fn spec_version_token(s: Seq<char>, v: int) -> Option<Seq<char>> {
    let t0 = skip_spaces(s, v);
    if t0 >= s.len() {
        None
    } else {
        let tok = s.subrange(t0, find_space(s, t0));
        Some(tok.subrange(0, find_char(tok, 0, '/')))
    }
}

/// The version token that follows the leftmost occurrence of `marker`.
pub open spec fn version_after(ua: Seq<char>, marker: Seq<char>) -> Option<Seq<char>> {
    spec_version_token(ua, find_pat(ua, marker)->Some_0 + marker.len())
}

/// Extract the version token that starts at or after index `v`.
fn extract_version(s: &str, v: usize) -> (r: Option<String>)
    requires
        v <= s@.len(),
    ensures
        (r is Some) <==> (spec_version_token(s@, v as int) is Some),
        r is Some ==> r->Some_0@ == spec_version_token(s@, v as int)->Some_0,
{
    let n: usize = s.unicode_len();
    let t0: usize = skip_spaces_in(s, v);
    if t0 == n {
        return None;
    }
    let t1: usize = find_space_in(s, t0);
    let tok = s.substring_char(t0, t1);
    let e: usize = find_char_in(tok, 0, '/');
    let ver = tok.substring_char(0, e);
    Some(ver.to_owned())
}

/// One step of the marker scan: if `marker` occurs in the User-Agent,
/// the canonical `name` and the version token after the leftmost
/// occurrence of the marker.
fn try_browser(user_agent: &str, marker: &str, name: &str) -> (r: Option<
    (Option<String>, Option<String>),
>)
    ensures
        (r is Some) == contains_pat(user_agent@, marker@),
        r is Some ==> r->Some_0.0 is Some,
        r is Some ==> r->Some_0.0->Some_0@ == name@,
        r is Some ==> ((r->Some_0.1 is Some) <==> (version_after(user_agent@, marker@) is Some)),
        r is Some ==> (r->Some_0.1 is Some ==> r->Some_0.1->Some_0@ == version_after(
            user_agent@,
            marker@,
        )->Some_0),
{
    match find_sub(user_agent, marker) {
        Some(i) => {
            let plen: usize = marker.unicode_len();
            let n: usize = user_agent.unicode_len();
            proof {
                lemma_find_from(user_agent@, marker@, 0);
                assert(match_at(user_agent@, marker@, i as int));
                assert(i + plen <= n);
            }
            let v = extract_version(user_agent, i + plen);
            Some((Some(name.to_owned()), v))
        },
        None => None,
    }
}

/// The browser name and version for a User-Agent value. The markers are
/// tried in this fixed priority order, regardless of where in the string
/// they occur; when none occurs the name is the fallback label and the
/// version is absent.
pub open spec fn spec_parse_browser(ua: Seq<char>) -> (Seq<char>, Option<Seq<char>>) {
    if contains_pat(ua, "Firefox/"@) {
        ("Firefox"@, version_after(ua, "Firefox/"@))
    } else if contains_pat(ua, "Chrome/"@) {
        ("Chrome"@, version_after(ua, "Chrome/"@))
    } else if contains_pat(ua, "Safari/"@) {
        ("Safari"@, version_after(ua, "Safari/"@))
    } else if contains_pat(ua, "Edge/"@) {
        ("Edge"@, version_after(ua, "Edge/"@))
    } else if contains_pat(ua, "Opera/"@) {
        ("Opera"@, version_after(ua, "Opera/"@))
    } else {
        ("Other"@, None)
    }
}

/// Detect the browser named by a User-Agent value, together with the
/// version token that follows its marker. The name is always present;
/// the version is absent exactly when `spec_parse_browser` has none.
pub fn parse_browser(user_agent: &str) -> (r: (Option<String>, Option<String>))
    ensures
        r.0 is Some,
        r.0->Some_0@ == spec_parse_browser(user_agent@).0,
        (r.1 is Some) <==> (spec_parse_browser(user_agent@).1 is Some),
        r.1 is Some ==> r.1->Some_0@ == spec_parse_browser(user_agent@).1->Some_0,
{
    if let Some(r) = try_browser(user_agent, "Firefox/", "Firefox") {
        return r;
    }
    if let Some(r) = try_browser(user_agent, "Chrome/", "Chrome") {
        return r;
    }
    if let Some(r) = try_browser(user_agent, "Safari/", "Safari") {
        return r;
    }
    if let Some(r) = try_browser(user_agent, "Edge/", "Edge") {
        return r;
    }
    if let Some(r) = try_browser(user_agent, "Opera/", "Opera") {
        return r;
    }
    (Some("Other".to_owned()), None)
}

/// A version is reported only when one of the five markers matched, so
/// the fallback name never carries a version.
pub proof fn lemma_browser_version_needs_match(ua: Seq<char>)
    ensures
        spec_parse_browser(ua).1 is Some ==> spec_parse_browser(ua).0 != "Other"@,
        spec_parse_browser(ua).1 is Some ==> (contains_pat(ua, "Firefox/"@) || contains_pat(
            ua,
            "Chrome/"@,
        ) || contains_pat(ua, "Safari/"@) || contains_pat(ua, "Edge/"@) || contains_pat(
            ua,
            "Opera/"@,
        )),
{
    reveal_strlit("Firefox");
    reveal_strlit("Chrome");
    reveal_strlit("Safari");
    reveal_strlit("Edge");
    reveal_strlit("Opera");
    reveal_strlit("Other");
    assert("Opera"@[1] == 'p');
    assert("Other"@[1] == 't');
    assert("Opera"@ != "Other"@);
    assert("Firefox"@.len() != "Other"@.len());
    assert("Chrome"@.len() != "Other"@.len());
    assert("Safari"@.len() != "Other"@.len());
    assert("Edge"@.len() != "Other"@.len());
}

/// The primary language tag of an Accept-Language value: everything
/// before the first `,`, then before the first `;` of that, trimmed of
/// surrounding whitespace. Quality weights and secondary preferences are
/// discarded.
pub open spec fn spec_parse_language(al: Seq<char>) -> Seq<char> {
    let first = al.subrange(0, find_char(al, 0, ','));
    spec_trim(first.subrange(0, find_char(first, 0, ';')))
}

/// Extract the primary language tag from an Accept-Language value.
/// Always succeeds; an empty input yields an empty tag, not absence.
pub fn parse_language(accept_language: &str) -> (r: Option<String>)
    ensures
        r is Some,
        r->Some_0@ == spec_parse_language(accept_language@),
{
    let e1: usize = find_char_in(accept_language, 0, ',');
    let first = accept_language.substring_char(0, e1);
    let e2: usize = find_char_in(first, 0, ';');
    let sub = first.substring_char(0, e2);
    let t = trim_str(sub);
    Some(t.to_owned())
}

} // verus!
