//! Matching request paths against endpoint reference paths.
//!
//! A reference path like `/lol/summoner/v4/summoners/by-name/{summonerName}`
//! matches a request path segment by segment; a segment starting with `{` is
//! a wildcard. A proxy uses this to find the method id of a request, keyed
//! additionally by the HTTP method.

use vstd::prelude::*;

use crate::headers::{find_char, lemma_find_char, split_on, split_str};
use crate::route::{spec_route_from_name, Route};
use crate::text::{spec_upper, str_eq, to_ascii_upper, chars_to_string};

verus! {

/// An HTTP method, as far as the endpoint table cares.
#[derive(Debug, Copy, Clone, Eq, PartialEq, Hash, Structural)]
pub enum HttpMethod {
    Get,
    Post,
    Put,
    Delete,
}

/// One entry of an endpoint table: the HTTP method, the reference path with
/// `{braced}` parameters, and the endpoint's method id.
pub struct Endpoint {
    /// The HTTP method of the endpoint.
    pub method: HttpMethod,
    /// The reference path, segments with `{braced}` wildcards.
    pub path: String,
    /// The method id used for per-method rate limiting.
    pub method_id: String,
}

/// One reference segment matches one request segment: it is a wildcard
/// (starts with `{`) or equal.
pub open spec fn spec_segment_matches(ref_seg: Seq<char>, req_seg: Seq<char>) -> bool {
    (ref_seg.len() > 0 && ref_seg[0] == '{') || ref_seg == req_seg
}

/// A request path matches a reference path: same number of `/`-separated
/// segments, each matching.
pub open spec fn spec_paths_match(ref_path: Seq<char>, req_path: Seq<char>) -> bool {
    let a = split_on(ref_path, '/');
    let b = split_on(req_path, '/');
    a.len() == b.len() && forall|i: int|
        0 <= i < a.len() ==> spec_segment_matches(#[trigger] a[i], b[i])
}

/// Each segment pair of matching paths matches.
proof fn lemma_paths_match_at(ref_path: Seq<char>, req_path: Seq<char>, i: int)
    requires
        spec_paths_match(ref_path, req_path),
        0 <= i < split_on(ref_path, '/').len(),
    ensures
        spec_segment_matches(split_on(ref_path, '/')[i], split_on(req_path, '/')[i]),
{
}

/// Whether the request path matches the reference path.
pub fn paths_match(ref_path: &str, req_path: &str) -> (r: bool)
    ensures
        r == spec_paths_match(ref_path@, req_path@),
{
    let ref_parts = split_str(ref_path, '/');
    let req_parts = split_str(req_path, '/');
    let ghost a = split_on(ref_path@, '/');
    let ghost b = split_on(req_path@, '/');
    if ref_parts.len() != req_parts.len() {
        return false;
    }
    let mut i: usize = 0;
    while i < ref_parts.len()
        invariant
            a == split_on(ref_path@, '/'),
            b == split_on(req_path@, '/'),
            ref_parts@.len() == a.len() == b.len() == req_parts@.len(),
            forall|k: int| 0 <= k < a.len() ==> ref_parts@[k]@ == a[k] && req_parts@[k]@ == b[k],
            0 <= i <= a.len(),
            forall|k: int| 0 <= k < i ==> spec_segment_matches(#[trigger] a[k], b[k]),
        decreases ref_parts@.len() - i,
    {
        let ref_seg = ref_parts[i].as_str();
        let req_seg = req_parts[i].as_str();
        let wildcard = ref_seg.unicode_len() > 0 && ref_seg.get_char(0) == '{';
        if !wildcard && !str_eq(ref_seg, req_seg) {
            proof {
                assert(!spec_segment_matches(a[i as int], b[i as int]));
                if spec_paths_match(ref_path@, req_path@) {
                    lemma_paths_match_at(ref_path@, req_path@, i as int);
                }
            }
            return false;
        }
        i = i + 1;
    }
    true
}

/// The first endpoint whose method and reference path match, or the table
/// length.
pub open spec fn spec_find_endpoint(
    endpoints: Seq<Endpoint>,
    method: HttpMethod,
    req_path: Seq<char>,
) -> int
    decreases endpoints.len(),
{
    if endpoints.len() == 0 {
        0
    } else if endpoints[0].method == method && spec_paths_match(endpoints[0].path@, req_path) {
        0
    } else {
        1 + spec_find_endpoint(endpoints.drop_first(), method, req_path)
    }
}

/// `spec_find_endpoint` points at the first match, or past the end.
pub proof fn lemma_find_endpoint(endpoints: Seq<Endpoint>, method: HttpMethod, req_path: Seq<char>)
    ensures
        0 <= spec_find_endpoint(endpoints, method, req_path) <= endpoints.len(),
        spec_find_endpoint(endpoints, method, req_path) < endpoints.len() ==> {
            let e = endpoints[spec_find_endpoint(endpoints, method, req_path)];
            e.method == method && spec_paths_match(e.path@, req_path)
        },
        forall|k: int|
            0 <= k < spec_find_endpoint(endpoints, method, req_path) ==> !((
            #[trigger] endpoints[k]).method == method && spec_paths_match(
                endpoints[k].path@,
                req_path,
            )),
    decreases endpoints.len(),
{
    if endpoints.len() > 0 && !(endpoints[0].method == method && spec_paths_match(
        endpoints[0].path@,
        req_path,
    )) {
        lemma_find_endpoint(endpoints.drop_first(), method, req_path);
        assert forall|k: int|
            0 <= k < spec_find_endpoint(endpoints, method, req_path) implies !((
        #[trigger] endpoints[k]).method == method && spec_paths_match(
            endpoints[k].path@,
            req_path,
        )) by {
            if k >= 1 {
                assert(endpoints.drop_first()[k - 1] == endpoints[k]);
            }
        }
    }
}

/// Finds the method id for a request: the first table entry whose HTTP
/// method equals the request's and whose reference path matches its path.
pub fn find_matching_method_id<'a>(
    http_method: HttpMethod,
    req_path: &str,
    endpoints: &'a Vec<Endpoint>,
) -> (r: Option<&'a str>)
    ensures
        ({
            let i = spec_find_endpoint(endpoints@, http_method, req_path@);
            match r {
                Some(id) => i < endpoints@.len() && id@ == endpoints@[i].method_id@,
                None => i == endpoints@.len(),
            }
        }),
{
    let mut i: usize = 0;
    while i < endpoints.len()
        invariant
            0 <= i <= endpoints@.len(),
            forall|k: int|
                0 <= k < i ==> !((#[trigger] endpoints@[k]).method == http_method
                    && spec_paths_match(endpoints@[k].path@, req_path@)),
        decreases endpoints@.len() - i,
    {
        let e = &endpoints[i];
        if matches_method(e.method, http_method) && paths_match(e.path.as_str(), req_path) {
            proof {
                lemma_find_endpoint_unique(endpoints@, http_method, req_path@, i as int);
            }
            return Some(endpoints[i].method_id.as_str());
        }
        i = i + 1;
    }
    proof {
        lemma_find_endpoint(endpoints@, http_method, req_path@);
    }
    None
}

/// An index holding a match, with none before it, is where
/// `spec_find_endpoint` points.
proof fn lemma_find_endpoint_unique(
    endpoints: Seq<Endpoint>,
    method: HttpMethod,
    req_path: Seq<char>,
    i: int,
)
    requires
        0 <= i < endpoints.len(),
        endpoints[i].method == method,
        spec_paths_match(endpoints[i].path@, req_path),
        forall|k: int|
            0 <= k < i ==> !((#[trigger] endpoints[k]).method == method && spec_paths_match(
                endpoints[k].path@,
                req_path,
            )),
    ensures
        spec_find_endpoint(endpoints, method, req_path) == i,
{
    lemma_find_endpoint(endpoints, method, req_path);
    let f = spec_find_endpoint(endpoints, method, req_path);
    if f < i {
        assert(!(endpoints[f].method == method && spec_paths_match(endpoints[f].path@, req_path)));
    }
    if f > i {
        assert(!(endpoints[i].method == method && spec_paths_match(endpoints[i].path@, req_path)));
    }
}

/// Whether two HTTP methods are equal.
fn matches_method(a: HttpMethod, b: HttpMethod) -> (r: bool)
    ensures
        r == (a == b),
{
    a == b
}

/// The string without its leading occurrences of `c`.
pub open spec fn trim_leading(s: Seq<char>, c: char) -> Seq<char>
    decreases s.len(),
{
    if s.len() > 0 && s[0] == c {
        trim_leading(s.drop_first(), c)
    } else {
        s
    }
}

/// Strips the leading occurrences of `c` off `s`.
fn trim_leading_exec<'a>(s: &'a str, c: char) -> (r: &'a str)
    ensures
        r@ == trim_leading(s@, c),
    decreases s@.len(),
{
    let len = s.unicode_len();
    if len > 0 && s.get_char(0) == c {
        let rest = s.substring_char(1, len);
        proof {
            assert(rest@ =~= s@.drop_first());
        }
        trim_leading_exec(rest, c)
    } else {
        s
    }
}

/// What parsing a proxy path yields: the route named by the first segment
/// (upper-cased), the method id of the first matching endpoint, and the
/// remaining path that is forwarded.
pub open spec fn spec_parse_path(
    method: HttpMethod,
    req_path: Seq<char>,
    endpoints: Seq<Endpoint>,
) -> Option<(Route, Seq<char>, Seq<char>)> {
    let t = trim_leading(req_path, '/');
    let i = find_char(t, '/');
    if i == t.len() {
        None
    } else {
        let route_name = spec_upper(t.subrange(0, i));
        let rest = t.subrange(i, t.len() as int);
        match spec_route_from_name(route_name) {
            Some(route) => {
                let j = spec_find_endpoint(endpoints, method, rest);
                if j < endpoints.len() {
                    Some((route, endpoints[j].method_id@, rest))
                } else {
                    None
                }
            },
            None => None,
        }
    }
}

/// Splits a proxy path into the route (its first segment, upper-cased), the
/// method id of the endpoint the rest matches, and the rest itself.
pub fn parse_path(
    http_method: HttpMethod,
    req_path: &str,
    endpoints: &Vec<Endpoint>,
) -> (r: Option<(Route, String, String)>)
    ensures
        (r is Some) == (spec_parse_path(http_method, req_path@, endpoints@) is Some),
        r matches Some(p) ==> {
            let sp = spec_parse_path(http_method, req_path@, endpoints@).unwrap();
            p.0 == sp.0 && p.1@ == sp.1 && p.2@ == sp.2
        },
{
    let trimmed = trim_leading_exec(req_path, '/');
    let len = trimmed.unicode_len();
    let i = crate::headers::find_sep(trimmed, '/');
    if i == len {
        return None;
    }
    proof {
        lemma_find_char(trimmed@, '/');
    }
    let route_seg = trimmed.substring_char(0, i);
    let rest = trimmed.substring_char(i, len);
    let upper_chars = to_ascii_upper(route_seg);
    let route_name = chars_to_string(&upper_chars);
    let route = match Route::from_name(route_name.as_str()) {
        Some(route) => route,
        None => {
            return None;
        },
    };
    match find_matching_method_id(http_method, rest, endpoints) {
        Some(method_id) => {
            proof {
                lemma_find_endpoint(endpoints@, http_method, rest@);
            }
            Some((route, method_id.to_owned(), rest.to_owned()))
        },
        None => None,
    }
}

} // verus!
