//! Origin resolution: the caller's apparent IP address, taken from the
//! proxy headers when they are present and from the direct peer address
//! otherwise. Resolution always succeeds and validates nothing: the value
//! of the configured trust chain is passed through verbatim.

use vstd::prelude::*;
use vstd::string::StrSliceExecFns;

use crate::text::find_char;
use crate::text::find_char_in;
use crate::text::lemma_find_char;
use crate::text::lemma_rskip_spaces;
use crate::text::lemma_skip_spaces;
use crate::text::rskip_spaces;
use crate::text::skip_spaces;
use crate::text::spec_trim;
use crate::text::trim_str;
use crate::text::view_opt_str;

verus! {

/// A `Forwarded` segment that names the client: its trimmed form starts,
/// case-insensitively, with `for=`.
pub open spec fn seg_names_for(seg: Seq<char>) -> bool {
    let t = spec_trim(seg);
    t.len() >= 4 && (t[0] == 'f' || t[0] == 'F') && (t[1] == 'o' || t[1] == 'O') && (t[2] == 'r'
        || t[2] == 'R') && t[3] == '='
}

/// The value carried by the first `for=` segment at or after `from` in a
/// `Forwarded` value split on `;`: everything after that segment's first
/// `=`. `None` when no remaining segment names the client.
pub open spec fn fwd_for_value(s: Seq<char>, from: int) -> Option<Seq<char>>
    decreases s.len() - from when 0 <= from <= s.len() via fwd_for_value_decreases
{
    let e = find_char(s, from, ';');
    let seg = s.subrange(from, e);
    if seg_names_for(seg) {
        Some(seg.subrange(find_char(seg, 0, '=') + 1, seg.len() as int))
    } else if e >= s.len() {
        None
    } else {
        fwd_for_value(s, e + 1)
    }
}

#[via_fn]
proof fn fwd_for_value_decreases(s: Seq<char>, from: int) {
    if 0 <= from <= s.len() {
        lemma_find_char(s, from, ';');
    }
}

/// A segment that names the client holds an `=`, and its first `=` lies
/// strictly inside it.
proof fn lemma_seg_has_eq(seg: Seq<char>)
    requires
        seg_names_for(seg),
    ensures
        0 <= find_char(seg, 0, '=') < seg.len(),
{
    let a = skip_spaces(seg, 0);
    let b = rskip_spaces(seg, seg.len() as int);
    lemma_skip_spaces(seg, 0);
    lemma_rskip_spaces(seg, seg.len() as int);
    let t = spec_trim(seg);
    assert(t == seg.subrange(a, b));
    assert(seg[a + 3] == '=');
    lemma_find_char(seg, 0, '=');
    if find_char(seg, 0, '=') == seg.len() {
        assert(seg[a + 3] != '=');
    }
}

/// Does this raw segment name the client?
fn seg_names_for_exec(seg: &str) -> (r: bool)
    ensures
        r == seg_names_for(seg@),
{
    let t = trim_str(seg);
    let n: usize = t.unicode_len();
    if n < 4 {
        return false;
    }
    let c0 = t.get_char(0);
    let c1 = t.get_char(1);
    let c2 = t.get_char(2);
    let c3 = t.get_char(3);
    (c0 == 'f' || c0 == 'F') && (c1 == 'o' || c1 == 'O') && (c2 == 'r' || c2 == 'R') && c3 == '='
}

/// The client value of a `Forwarded` header, if one of its segments
/// carries one.
pub fn forwarded_for(forwarded: &str) -> (r: Option<String>)
    ensures
        (r is Some) <==> (fwd_for_value(forwarded@, 0) is Some),
        r is Some ==> r->Some_0@ == fwd_for_value(forwarded@, 0)->Some_0,
{
    let n: usize = forwarded.unicode_len();
    let mut i: usize = 0;
    loop
        invariant
            0 <= i <= n,
            n == forwarded@.len(),
            fwd_for_value(forwarded@, 0) == fwd_for_value(forwarded@, i as int),
        decreases n - i,
    {
        let e: usize = find_char_in(forwarded, i, ';');
        let seg = forwarded.substring_char(i, e);
        if seg_names_for_exec(seg) {
            proof {
                lemma_seg_has_eq(seg@);
            }
            let q: usize = find_char_in(seg, 0, '=');
            let m: usize = seg.unicode_len();
            let v = seg.substring_char(q + 1, m);
            return Some(v.to_owned());
        } else if e == n {
            return None;
        }
        i = e + 1;
    }
}

/// The reported client IP: the trimmed part of `X-Forwarded-For` before
/// its first comma when that header is present; otherwise the value of
/// the first `for=` segment of `Forwarded` when there is one; otherwise
/// the direct peer address.
pub open spec fn spec_resolve_ip(
    xff: Option<Seq<char>>,
    fwd: Option<Seq<char>>,
    direct: Seq<char>,
) -> Seq<char> {
    if xff is Some {
        spec_trim(xff->Some_0.subrange(0, find_char(xff->Some_0, 0, ',')))
    } else if fwd is Some && fwd_for_value(fwd->Some_0, 0) is Some {
        fwd_for_value(fwd->Some_0, 0)->Some_0
    } else {
        direct
    }
}

/// Resolve the caller's apparent IP address. Always succeeds.
pub fn resolve_ip(x_forwarded_for: Option<&str>, forwarded: Option<&str>, direct_ip: &str) -> (r:
    String)
    ensures
        r@ == spec_resolve_ip(view_opt_str(x_forwarded_for), view_opt_str(forwarded), direct_ip@),
{
    match x_forwarded_for {
        Some(x) => {
            let e: usize = find_char_in(x, 0, ',');
            let first = x.substring_char(0, e);
            trim_str(first).to_owned()
        },
        None => match forwarded {
            Some(f) => match forwarded_for(f) {
                Some(v) => v,
                None => direct_ip.to_owned(),
            },
            None => direct_ip.to_owned(),
        },
    }
}

} // verus!
