//! The process-wide front door: the configuration, the insert-only map of
//! per-region requesters, and the request URL construction.
//!
//! Sending requests is the transport's business; this module owns the state
//! and the string work.

use vstd::prelude::*;

use crate::config::RiotApiConfig;
use crate::insert_only_map::{find_key, InsertOnlyMap};
use crate::regional_requester::RegionalRequester;
use crate::text::chars_to_string;

verus! {

/// The index of the first `{}` marker in `s`, or a value past `s.len() - 2`
/// when there is none.
pub open spec fn find_marker(s: Seq<char>) -> int
    decreases s.len(),
{
    if s.len() < 2 {
        s.len() as int
    } else if s[0] == '{' && s[1] == '}' {
        0
    } else {
        1 + find_marker(s.drop_first())
    }
}

/// `find_marker` points at the first marker, or past every possible one.
pub proof fn lemma_find_marker(s: Seq<char>)
    ensures
        0 <= find_marker(s) <= s.len(),
        find_marker(s) + 2 <= s.len() ==> s[find_marker(s)] == '{' && s[find_marker(s) + 1] == '}',
        forall|k: int|
            0 <= k < find_marker(s) && k + 2 <= s.len() ==> !(#[trigger] s[k] == '{' && s[k + 1]
                == '}'),
    decreases s.len(),
{
    if s.len() >= 2 && !(s[0] == '{' && s[1] == '}') {
        lemma_find_marker(s.drop_first());
        assert forall|k: int|
            0 <= k < find_marker(s) && k + 2 <= s.len() implies !(#[trigger] s[k] == '{' && s[k
            + 1] == '}') by {
            if k >= 1 {
                assert(s.drop_first()[k - 1] == s[k]);
                assert(s.drop_first()[k] == s[k + 1]);
            }
        }
    }
}

/// An index holding a marker with none before it is where `find_marker`
/// points.
pub proof fn lemma_find_marker_unique(s: Seq<char>, i: int)
    requires
        0 <= i,
        i + 2 <= s.len(),
        s[i] == '{' && s[i + 1] == '}',
        forall|k: int| 0 <= k < i ==> !(#[trigger] s[k] == '{' && s[k + 1] == '}'),
    ensures
        find_marker(s) == i,
{
    lemma_find_marker(s);
    let f = find_marker(s);
    if f < i {
        assert(!(s[f] == '{' && s[f + 1] == '}'));
    }
    if f > i {
        assert(!(s[i] == '{' && s[i + 1] == '}'));
    }
}

/// `s` with every `{}` marker replaced by `region`, scanning left to right
/// and never rescanning replaced text, as `str::replace` does.
pub open spec fn spec_replace_markers(s: Seq<char>, region: Seq<char>) -> Seq<char>
    decreases s.len(),
    via spec_replace_markers_decreases
{
    let i = find_marker(s);
    if i + 2 > s.len() {
        s
    } else {
        s.subrange(0, i) + region + spec_replace_markers(s.subrange(i + 2, s.len() as int), region)
    }
}

#[via_fn]
proof fn spec_replace_markers_decreases(s: Seq<char>, region: Seq<char>) {
    lemma_find_marker(s);
}

/// The first marker in `s`, or the length of `s` when there is none.
fn find_marker_exec(s: &str) -> (i: usize)
    ensures
        i as int == find_marker(s@) || (i == s@.len() && find_marker(s@) + 2 > s@.len()),
        i <= s@.len(),
        i as int + 2 <= s@.len() ==> find_marker(s@) == i,
{
    let len = s.unicode_len();
    let mut i: usize = 0;
    while len >= 2 && i < len - 1
        invariant
            len == s@.len(),
            0 <= i,
            i <= len,
            forall|k: int| 0 <= k < i ==> !(#[trigger] s@[k] == '{' && s@[k + 1] == '}'),
        decreases len - i,
    {
        if s.get_char(i) == '{' && s.get_char(i + 1) == '}' {
            proof {
                lemma_find_marker_unique(s@, i as int);
            }
            return i;
        }
        i = i + 1;
    }
    proof {
        lemma_find_marker(s@);
        if find_marker(s@) + 2 <= s@.len() {
            assert(!(s@[find_marker(s@)] == '{' && s@[find_marker(s@) + 1] == '}'));
        }
    }
    len
}

/// Replaces every `{}` marker in `s` with `region`.
fn replace_markers(s: &str, region: &str) -> (r: Vec<char>)
    ensures
        r@ == spec_replace_markers(s@, region@),
    decreases s@.len(),
{
    let len = s.unicode_len();
    let i = find_marker_exec(s);
    if len < 2 || i > len - 2 {
        crate::text::str_chars(s)
    } else {
        proof {
            lemma_find_marker(s@);
        }
        let head = s.substring_char(0, i);
        let tail = s.substring_char(i + 2, len);
        let mut out = crate::text::str_chars(head);
        let mut region_chars = crate::text::str_chars(region);
        let mut rest = replace_markers(tail, region);
        out.append(&mut region_chars);
        out.append(&mut rest);
        out
    }
}

/// For retrieving data from the game API: the immutable configuration and
/// one requester per region, created lazily and never replaced.
pub struct RiotApi {
    /// Tuning shared by every requester.
    pub config: RiotApiConfig,
    /// Per-region requesters, keyed by the region platform string.
    pub regional_requesters: InsertOnlyMap<RegionalRequester>,
}

impl RiotApi {
    /// Every requester is well-formed, and so is the map and the config.
    pub open spec fn wf(self) -> bool {
        &&& self.config.wf()
        &&& self.regional_requesters.wf()
        &&& forall|i: int|
            0 <= i < self.regional_requesters.entries@.len() ==> (
            #[trigger] self.regional_requesters.entries@[i]).1.wf()
    }

    /// A fresh client around a configuration.
    pub fn new(config: RiotApiConfig) -> (api: RiotApi)
        requires
            config.wf(),
        ensures
            api.wf(),
            api.config == config,
            api.regional_requesters.entries@.len() == 0,
    {
        RiotApi { config, regional_requesters: InsertOnlyMap::new() }
    }

    /// The URL for a request: the base URL template with the region
    /// substituted for its `{}` placeholder, with the path appended.
    pub fn request_url(&self, region_platform: &str, path: &str) -> (url: String)
        ensures
            url@ == spec_replace_markers(self.config.base_url@, region_platform@) + path@,
    {
        let chars = replace_markers(self.config.base_url.as_str(), region_platform);
        let base = chars_to_string(&chars);
        base.concat(path)
    }

    /// Looks up or lazily creates the requester for a region and returns its
    /// stable index. Existing requesters are never touched, so repeated
    /// lookups of one region keep naming the same requester.
    pub fn regional_requester(&mut self, region_platform: &str) -> (idx: usize)
        requires
            old(self).wf(),
        ensures
            final(self).wf(),
            final(self).config == old(self).config,
            final(self).regional_requesters.entries@.subrange(
                0,
                old(self).regional_requesters.entries@.len() as int,
            ) == old(self).regional_requesters.entries@,
            idx < final(self).regional_requesters.entries@.len(),
            final(self).regional_requesters.entries@[idx as int].0@ == region_platform@,
            idx == find_key(final(self).regional_requesters.entries@, region_platform@),
    {
        let fresh = RegionalRequester::new();
        let ghost entries0 = self.regional_requesters.entries@;
        let idx = self.regional_requesters.get_or_insert(region_platform, fresh);
        proof {
            assert forall|i: int|
                0 <= i < self.regional_requesters.entries@.len() implies (
            #[trigger] self.regional_requesters.entries@[i]).1.wf() by {
                if i < entries0.len() {
                    assert(self.regional_requesters.entries@[i] == self.regional_requesters.entries@
                        .subrange(0, entries0.len() as int)[i]);
                }
            }
        }
        idx
    }
}

} // verus!
