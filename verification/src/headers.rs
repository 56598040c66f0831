//! The rate-limit header grammar.
//!
//! A limit or count header is a comma-separated list of `<integer>:<integer>`
//! entries, such as `"20:1,100:120"` (20 requests per 1 second and 100 per
//! 120 seconds). A `Retry-After` header is a decimal number of seconds, with
//! a tolerated fractional part.

use vstd::prelude::*;

use crate::text::{
    all_digits, canonical_digits, digits_val, lemma_digits_of_val, lemma_digits_val_nonneg,
    lemma_u64_digits_props, parse_u64, push_u64_digits, spec_parse_u64, u64_to_digits,
};

verus! {

/// The index of the first occurrence of `sep` in `s`, or `s.len()`.
pub open spec fn find_char(s: Seq<char>, sep: char) -> int
    decreases s.len(),
{
    if s.len() == 0 {
        0
    } else if s[0] == sep {
        0
    } else {
        1 + find_char(s.drop_first(), sep)
    }
}

/// `find_char` points at the first occurrence of `sep`, or past the end.
pub proof fn lemma_find_char(s: Seq<char>, sep: char)
    ensures
        0 <= find_char(s, sep) <= s.len(),
        find_char(s, sep) < s.len() ==> s[find_char(s, sep)] == sep,
        forall|k: int| 0 <= k < find_char(s, sep) ==> s[k] != sep,
    decreases s.len(),
{
    if s.len() > 0 && s[0] != sep {
        lemma_find_char(s.drop_first(), sep);
        assert forall|k: int| 0 <= k < find_char(s, sep) implies s[k] != sep by {
            if k >= 1 {
                assert(s.drop_first()[k - 1] == s[k]);
                assert(s.drop_first()[k - 1] != sep);
            }
        }
    }
}

/// An index that holds `sep` with none before it is where `find_char` points.
pub proof fn lemma_find_char_unique(s: Seq<char>, sep: char, i: int)
    requires
        0 <= i < s.len(),
        s[i] == sep,
        forall|k: int| 0 <= k < i ==> s[k] != sep,
    ensures
        find_char(s, sep) == i,
{
    lemma_find_char(s, sep);
    let f = find_char(s, sep);
    if f < i {
        assert(s[f] != sep);
    }
    if f > i {
        assert(s[i] != sep);
    }
}

/// The pieces of `s` between occurrences of `sep`; splitting the empty
/// string yields one empty piece, as `str::split` does.
pub open spec fn split_on(s: Seq<char>, sep: char) -> Seq<Seq<char>>
    decreases s.len(),
    via split_on_decreases
{
    let i = find_char(s, sep);
    if i == s.len() {
        seq![s]
    } else {
        seq![s.subrange(0, i)] + split_on(s.subrange(i + 1, s.len() as int), sep)
    }
}

#[via_fn]
proof fn split_on_decreases(s: Seq<char>, sep: char) {
    lemma_find_char(s, sep);
}

/// Splitting never yields an empty list of pieces.
pub proof fn lemma_split_on_len(s: Seq<char>, sep: char)
    ensures
        split_on(s, sep).len() >= 1,
    decreases s.len(),
{
    lemma_find_char(s, sep);
    let i = find_char(s, sep);
    if i != s.len() {
        lemma_split_on_len(s.subrange(i + 1, s.len() as int), sep);
    }
}

/// The first occurrence of `sep` in `s`, or the length of `s`.
pub fn find_sep(s: &str, sep: char) -> (i: usize)
    ensures
        i == find_char(s@, sep),
{
    let len = s.unicode_len();
    let mut i: usize = 0;
    while i < len
        invariant
            len == s@.len(),
            0 <= i <= len,
            forall|k: int| 0 <= k < i ==> s@[k] != sep,
        decreases len - i,
    {
        if s.get_char(i) == sep {
            proof {
                lemma_find_char_unique(s@, sep, i as int);
            }
            return i;
        }
        i = i + 1;
    }
    proof {
        lemma_find_char(s@, sep);
    }
    len
}

/// Splits `s` on `sep` into owned pieces, exactly as [`split_on`] describes.
pub fn split_str(s: &str, sep: char) -> (parts: Vec<String>)
    ensures
        parts@.len() == split_on(s@, sep).len(),
        forall|k: int| 0 <= k < parts@.len() ==> parts@[k]@ == split_on(s@, sep)[k],
    decreases s@.len(),
{
    let len = s.unicode_len();
    let i = find_sep(s, sep);
    if i == len {
        let mut parts: Vec<String> = Vec::new();
        parts.push(s.to_owned());
        parts
    } else {
        proof {
            lemma_find_char(s@, sep);
        }
        let head = s.substring_char(0, i);
        let tail = s.substring_char(i + 1, len);
        let mut parts = split_str(tail, sep);
        parts.insert(0, head.to_owned());
        proof {
            let pieces = split_on(s@, sep);
            assert(pieces == seq![s@.subrange(0, i as int)] + split_on(
                s@.subrange(i as int + 1, s@.len() as int),
                sep,
            ));
            assert(forall|k: int|
                1 <= k < parts@.len() ==> parts@[k]@ == split_on(tail@, sep)[k - 1]);
        }
        parts
    }
}

/// What parsing one `<integer>:<integer>` entry yields.
pub open spec fn spec_parse_pair(p: Seq<char>) -> Option<(u64, u64)> {
    let i = find_char(p, ':');
    if i == p.len() {
        None
    } else {
        match (spec_parse_u64(p.subrange(0, i)), spec_parse_u64(p.subrange(i + 1, p.len() as int))) {
            (Some(a), Some(b)) => Some((a, b)),
            _ => None,
        }
    }
}

/// Parses one `<integer>:<integer>` entry.
pub fn parse_pair(p: &str) -> (r: Option<(u64, u64)>)
    ensures
        r == spec_parse_pair(p@),
{
    let len = p.unicode_len();
    let i = find_sep(p, ':');
    if i == len {
        return None;
    }
    proof {
        lemma_find_char(p@, ':');
    }
    let first = p.substring_char(0, i);
    let second = p.substring_char(i + 1, len);
    match (parse_u64(first), parse_u64(second)) {
        (Some(a), Some(b)) => Some((a, b)),
        _ => None,
    }
}

/// Parses a list of entry pieces; one bad entry rejects the whole list.
pub open spec fn spec_parse_pieces(pieces: Seq<Seq<char>>) -> Option<Seq<(u64, u64)>>
    decreases pieces.len(),
{
    if pieces.len() == 0 {
        Some(Seq::<(u64, u64)>::empty())
    } else {
        match (spec_parse_pair(pieces[0]), spec_parse_pieces(pieces.drop_first())) {
            (Some(p), Some(rest)) => Some(seq![p] + rest),
            _ => None,
        }
    }
}

/// What parsing a whole limit (or count) header yields: every entry must
/// parse, else the header is rejected.
pub open spec fn spec_parse_limits(s: Seq<char>) -> Option<Seq<(u64, u64)>> {
    spec_parse_pieces(split_on(s, ','))
}

/// Peeling one piece off the front of the list.
proof fn lemma_parse_pieces_step(pieces: Seq<Seq<char>>, i: int)
    requires
        0 <= i < pieces.len(),
    ensures
        spec_parse_pieces(pieces.skip(i)) == match (
            spec_parse_pair(pieces[i]),
            spec_parse_pieces(pieces.skip(i + 1)),
        ) {
            (Some(p), Some(rest)) => Some(seq![p] + rest),
            _ => None,
        },
{
    assert(pieces.skip(i)[0] == pieces[i]);
    assert(pieces.skip(i).drop_first() =~= pieces.skip(i + 1));
}

/// Parses a limit (or count) header such as `"20:1,100:120"`.
pub fn parse_limits(s: &str) -> (r: Option<Vec<(u64, u64)>>)
    ensures
        (r is Some) == (spec_parse_limits(s@) is Some),
        r matches Some(v) ==> Some(v@) == spec_parse_limits(s@),
{
    let parts = split_str(s, ',');
    let ghost pieces = split_on(s@, ',');
    proof {
        assert(pieces.skip(0) =~= pieces);
    }
    let mut out: Vec<(u64, u64)> = Vec::new();
    let mut i: usize = 0;
    while i < parts.len()
        invariant
            parts@.len() == pieces.len(),
            forall|k: int| 0 <= k < pieces.len() ==> parts@[k]@ == pieces[k],
            0 <= i <= pieces.len(),
            spec_parse_limits(s@) == match spec_parse_pieces(pieces.skip(i as int)) {
                Some(rest) => Some(out@ + rest),
                None => None::<Seq<(u64, u64)>>,
            },
        decreases parts@.len() - i,
    {
        let piece: &str = parts[i].as_str();
        proof {
            lemma_parse_pieces_step(pieces, i as int);
        }
        match parse_pair(piece) {
            Some(pair) => {
                let ghost pre = out@;
                out.push(pair);
                proof {
                    if spec_parse_pieces(pieces.skip(i as int + 1)) is Some {
                        let rest = spec_parse_pieces(pieces.skip(i as int + 1)).unwrap();
                        assert(pre + (seq![pair] + rest) =~= out@ + rest);
                    }
                }
            },
            None => {
                return None;
            },
        }
        i = i + 1;
    }
    proof {
        assert(pieces.skip(pieces.len() as int) =~= Seq::<Seq<char>>::empty());
        assert(out@ + Seq::<(u64, u64)>::empty() =~= out@);
    }
    Some(out)
}

/// The rendering of one `<integer>:<integer>` entry.
pub open spec fn spec_render_pair(p: (u64, u64)) -> Seq<char> {
    u64_to_digits(p.0 as int) + seq![':'] + u64_to_digits(p.1 as int)
}

/// The rendering of a limit list, entries joined by commas.
pub open spec fn spec_render_limits(pairs: Seq<(u64, u64)>) -> Seq<char>
    decreases pairs.len(),
{
    if pairs.len() == 0 {
        Seq::<char>::empty()
    } else if pairs.len() == 1 {
        spec_render_pair(pairs[0])
    } else {
        spec_render_pair(pairs[0]) + seq![','] + spec_render_limits(pairs.drop_first())
    }
}

/// Rendering one more pair appends a comma (after the first) and the entry.
proof fn lemma_render_snoc(pairs: Seq<(u64, u64)>, p: (u64, u64))
    ensures
        spec_render_limits(pairs.push(p)) == if pairs.len() == 0 {
            spec_render_pair(p)
        } else {
            spec_render_limits(pairs) + seq![','] + spec_render_pair(p)
        },
    decreases pairs.len(),
{
    if pairs.len() == 0 {
        assert(pairs.push(p)[0] == p);
    } else {
        assert(pairs.push(p).drop_first() =~= pairs.drop_first().push(p));
        lemma_render_snoc(pairs.drop_first(), p);
        if pairs.len() == 1 {
            assert(pairs.drop_first() =~= Seq::<(u64, u64)>::empty());
            assert(spec_render_limits(pairs.push(p)) == spec_render_pair(pairs.push(p)[0]) + seq![
                ',',
            ] + spec_render_limits(pairs.push(p).drop_first()));
            assert(pairs.push(p)[0] == pairs[0]);
        } else {
            assert(spec_render_limits(pairs) + seq![','] + spec_render_pair(p) =~= spec_render_pair(
                pairs[0],
            ) + seq![','] + (spec_render_limits(pairs.drop_first()) + seq![','] + spec_render_pair(
                p,
            )));
        }
    }
}

/// Renders bucket shapes back into a header string such as `"20:1,100:120"`.
pub fn render_limits(pairs: &Vec<(u64, u64)>) -> (r: String)
    ensures
        r@ == spec_render_limits(pairs@),
{
    let mut out: Vec<char> = Vec::new();
    let mut i: usize = 0;
    while i < pairs.len()
        invariant
            0 <= i <= pairs@.len(),
            out@ == spec_render_limits(pairs@.subrange(0, i as int)),
        decreases pairs@.len() - i,
    {
        let ghost pre = pairs@.subrange(0, i as int);
        if i > 0 {
            out.push(',');
        }
        let (a, b) = pairs[i];
        crate::text::push_u64_digits(a, &mut out);
        out.push(':');
        crate::text::push_u64_digits(b, &mut out);
        proof {
            lemma_render_snoc(pre, pairs@[i as int]);
            assert(pairs@.subrange(0, i as int + 1) =~= pre.push(pairs@[i as int]));
            if i == 0 {
                assert(out@ =~= spec_render_pair(pairs@[0]));
            } else {
                assert(out@ =~= spec_render_limits(pre) + seq![','] + spec_render_pair(
                    pairs@[i as int],
                ));
            }
        }
        i = i + 1;
    }
    proof {
        assert(pairs@.subrange(0, pairs@.len() as int) =~= pairs@);
    }
    crate::text::chars_to_string(&out)
}

/// Digit characters are never a comma or a colon.
proof fn lemma_digits_not_sep(s: Seq<char>)
    requires
        all_digits(s),
    ensures
        forall|k: int| 0 <= k < s.len() ==> s[k] != ',',
        forall|k: int| 0 <= k < s.len() ==> s[k] != ':',
{
    assert(',' as u32 == 44);
    assert(':' as u32 == 58);
    assert forall|k: int| 0 <= k < s.len() implies s[k] != ',' && s[k] != ':' by {
        assert(crate::text::is_digit_char(s[k]));
    }
}

/// A rendered entry parses back to the pair it came from, and holds no comma.
proof fn lemma_pair_roundtrip(p: (u64, u64))
    ensures
        spec_parse_pair(spec_render_pair(p)) == Some(p),
        forall|k: int| 0 <= k < spec_render_pair(p).len() ==> spec_render_pair(p)[k] != ',',
{
    let a = u64_to_digits(p.0 as int);
    let b = u64_to_digits(p.1 as int);
    let rp = spec_render_pair(p);
    lemma_u64_digits_props(p.0 as int);
    lemma_u64_digits_props(p.1 as int);
    lemma_digits_not_sep(a);
    lemma_digits_not_sep(b);
    assert(rp[a.len() as int] == ':');
    assert(forall|k: int| 0 <= k < a.len() ==> rp[k] == a[k]);
    assert(forall|k: int| 0 <= k < b.len() ==> rp[a.len() + 1 + k] == b[k]);
    lemma_find_char_unique(rp, ':', a.len() as int);
    assert(rp.subrange(0, a.len() as int) =~= a);
    assert(rp.subrange(a.len() as int + 1, rp.len() as int) =~= b);
    assert(spec_parse_u64(a) == Some(p.0));
    assert(spec_parse_u64(b) == Some(p.1));
    assert(',' as u32 == 44);
    assert(':' as u32 == 58);
}

/// Splitting a string without the separator yields that one piece.
proof fn lemma_split_nosep(s: Seq<char>, sep: char)
    requires
        forall|k: int| 0 <= k < s.len() ==> s[k] != sep,
    ensures
        split_on(s, sep) == seq![s],
{
    lemma_find_char(s, sep);
    if find_char(s, sep) < s.len() {
        assert(s[find_char(s, sep)] == sep);
    }
}

/// Splitting `a ++ sep ++ b` peels `a` off when `a` holds no separator.
proof fn lemma_split_concat(a: Seq<char>, b: Seq<char>, sep: char)
    requires
        forall|k: int| 0 <= k < a.len() ==> a[k] != sep,
    ensures
        split_on(a + seq![sep] + b, sep) == seq![a] + split_on(b, sep),
{
    let s = a + seq![sep] + b;
    assert(s[a.len() as int] == sep);
    assert(forall|k: int| 0 <= k < a.len() ==> s[k] == a[k]);
    lemma_find_char_unique(s, sep, a.len() as int);
    assert(s.subrange(0, a.len() as int) =~= a);
    assert(s.subrange(a.len() as int + 1, s.len() as int) =~= b);
}

/// Round-trip, parse direction: parsing a rendered non-empty limit list
/// gives back exactly the pairs that were rendered.
pub proof fn lemma_limits_roundtrip(pairs: Seq<(u64, u64)>)
    requires
        pairs.len() >= 1,
    ensures
        spec_parse_limits(spec_render_limits(pairs)) == Some(pairs),
    decreases pairs.len(),
{
    let s = spec_render_limits(pairs);
    lemma_pair_roundtrip(pairs[0]);
    let rp = spec_render_pair(pairs[0]);
    if pairs.len() == 1 {
        lemma_split_nosep(rp, ',');
        assert(split_on(s, ',') == seq![rp]);
        assert(seq![rp].drop_first() =~= Seq::<Seq<char>>::empty());
        assert(spec_parse_pieces(Seq::<Seq<char>>::empty()) == Some(Seq::<(u64, u64)>::empty()));
        assert(spec_parse_pieces(seq![rp]) == Some(seq![pairs[0]] + Seq::<(u64, u64)>::empty()));
        assert(seq![pairs[0]] + Seq::<(u64, u64)>::empty() =~= pairs);
    } else {
        let rest = pairs.drop_first();
        lemma_limits_roundtrip(rest);
        lemma_split_concat(rp, spec_render_limits(rest), ',');
        let pieces = split_on(s, ',');
        assert(pieces == seq![rp] + split_on(spec_render_limits(rest), ','));
        assert(pieces[0] == rp);
        assert(pieces.drop_first() =~= split_on(spec_render_limits(rest), ','));
        assert(spec_parse_pieces(pieces) == Some(seq![pairs[0]] + rest));
        assert(seq![pairs[0]] + rest =~= pairs);
    }
}

/// A canonical entry: `<digits>:<digits>`, both without leading zeros and
/// fitting `u64`, as the server renders them.
pub open spec fn canonical_pair(p: Seq<char>) -> bool {
    let i = find_char(p, ':');
    &&& i < p.len()
    &&& canonical_digits(p.subrange(0, i))
    &&& canonical_digits(p.subrange(i + 1, p.len() as int))
    &&& digits_val(p.subrange(0, i)) <= u64::MAX
    &&& digits_val(p.subrange(i + 1, p.len() as int)) <= u64::MAX
}

/// A canonical header: every comma-separated entry is canonical.
pub open spec fn canonical_header(s: Seq<char>) -> bool {
    forall|k: int|
        0 <= k < split_on(s, ',').len() ==> #[trigger] canonical_pair(split_on(s, ',')[k])
}

/// A canonical entry parses, and re-rendering the parsed pair reproduces it.
proof fn lemma_pair_exact(p: Seq<char>)
    requires
        canonical_pair(p),
    ensures
        spec_parse_pair(p) is Some,
        spec_render_pair(spec_parse_pair(p).unwrap()) == p,
{
    let i = find_char(p, ':');
    lemma_find_char(p, ':');
    let a = p.subrange(0, i);
    let b = p.subrange(i + 1, p.len() as int);
    lemma_digits_val_nonneg(a);
    lemma_digits_val_nonneg(b);
    lemma_digits_of_val(a);
    lemma_digits_of_val(b);
    let pair = spec_parse_pair(p).unwrap();
    assert(pair == (digits_val(a) as u64, digits_val(b) as u64));
    assert(u64_to_digits(pair.0 as int) == a);
    assert(u64_to_digits(pair.1 as int) == b);
    assert(p[i] == ':');
    assert(spec_render_pair(pair) =~= p);
}

/// Round-trip, render direction: re-rendering the bucket shapes parsed from
/// a canonical header reproduces that header exactly.
pub proof fn lemma_limits_exact(s: Seq<char>)
    requires
        canonical_header(s),
    ensures
        spec_parse_limits(s) is Some,
        spec_render_limits(spec_parse_limits(s).unwrap()) == s,
    decreases s.len(),
{
    let i = find_char(s, ',');
    lemma_find_char(s, ',');
    let pieces = split_on(s, ',');
    if i == s.len() {
        assert(pieces == seq![s]);
        assert(pieces[0] == s);
        lemma_pair_exact(s);
        let pair = spec_parse_pair(s).unwrap();
        assert(pieces.drop_first() =~= Seq::<Seq<char>>::empty());
        assert(spec_parse_pieces(Seq::<Seq<char>>::empty()) == Some(Seq::<(u64, u64)>::empty()));
        assert(spec_parse_pieces(pieces) == Some(seq![pair] + Seq::<(u64, u64)>::empty()));
        let parsed = spec_parse_limits(s).unwrap();
        assert(parsed == seq![pair] + Seq::<(u64, u64)>::empty());
        assert(parsed =~= seq![pair]);
        assert(spec_render_limits(parsed) == spec_render_pair(pair));
    } else {
        let head = s.subrange(0, i);
        let tail = s.subrange(i + 1, s.len() as int);
        assert(pieces == seq![head] + split_on(tail, ','));
        assert(pieces[0] == head);
        lemma_split_on_len(tail, ',');
        assert forall|k: int|
            0 <= k < split_on(tail, ',').len() implies #[trigger] canonical_pair(
            split_on(tail, ',')[k],
        ) by {
            assert(pieces[k + 1] == split_on(tail, ',')[k]);
            assert(canonical_pair(pieces[k + 1]));
        }
        lemma_limits_exact(tail);
        assert(canonical_pair(pieces[0]));
        lemma_pair_exact(head);
        let pair = spec_parse_pair(head).unwrap();
        assert(pieces.drop_first() =~= split_on(tail, ','));
        let tail_parsed = spec_parse_limits(tail).unwrap();
        let parsed = spec_parse_limits(s).unwrap();
        assert(parsed == seq![pair] + tail_parsed);
        assert(parsed[0] == pair);
        assert(parsed.drop_first() =~= tail_parsed);
        assert(tail_parsed.len() >= 1) by {
            lemma_split_on_len(tail, ',');
            assert(spec_parse_pieces(split_on(tail, ',')) is Some);
            lemma_parse_pieces_len(split_on(tail, ','));
        }
        assert(parsed.len() >= 2);
        assert(spec_render_limits(parsed) == spec_render_pair(pair) + seq![',']
            + spec_render_limits(tail_parsed));
        assert(spec_render_pair(pair) + seq![','] + spec_render_limits(tail_parsed) =~= s) by {
            assert(spec_render_pair(pair) == head);
            assert(spec_render_limits(tail_parsed) == tail);
            assert(s[i] == ',');
        }
    }
}

/// A parsed piece list has as many pairs as pieces.
proof fn lemma_parse_pieces_len(pieces: Seq<Seq<char>>)
    requires
        spec_parse_pieces(pieces) is Some,
    ensures
        spec_parse_pieces(pieces).unwrap().len() == pieces.len(),
    decreases pieces.len(),
{
    if pieces.len() > 0 {
        lemma_parse_pieces_len(pieces.drop_first());
    }
}

/// The milliseconds contributed by a fraction part, truncated past the
/// third digit.
pub open spec fn spec_frac_ms(f: Seq<char>) -> int {
    if f.len() == 0 {
        0
    } else if f.len() == 1 {
        digits_val(f) * 100
    } else if f.len() == 2 {
        digits_val(f) * 10
    } else {
        digits_val(f.subrange(0, 3))
    }
}

/// What parsing a `Retry-After` value yields, in milliseconds: a decimal
/// number of seconds — digits with an optional fraction — or nothing for
/// anything else. The value is mathematical; it may exceed `u64`.
pub open spec fn spec_retry_after_ms(s: Seq<char>) -> Option<int> {
    let i = find_char(s, '.');
    if i == s.len() {
        if s.len() > 0 && all_digits(s) {
            Some(digits_val(s) * 1000)
        } else {
            None
        }
    } else {
        let ip = s.subrange(0, i);
        let fp = s.subrange(i + 1, s.len() as int);
        if ip.len() > 0 && all_digits(ip) && all_digits(fp) {
            Some(digits_val(ip) * 1000 + spec_frac_ms(fp))
        } else {
            None
        }
    }
}

/// A parsed `Retry-After` value is never negative.
pub proof fn lemma_retry_after_nonneg(s: Seq<char>)
    ensures
        spec_retry_after_ms(s) matches Some(v) ==> v >= 0,
{
    if spec_retry_after_ms(s) is Some {
        let i = find_char(s, '.');
        lemma_find_char(s, '.');
        if i == s.len() {
            lemma_digits_val_nonneg(s);
        } else {
            let ip = s.subrange(0, i);
            let fp = s.subrange(i + 1, s.len() as int);
            lemma_digits_val_nonneg(ip);
            assert(spec_frac_ms(fp) >= 0) by {
                if fp.len() == 0 {
                } else if fp.len() <= 2 {
                    lemma_digits_val_nonneg(fp);
                } else {
                    let pre = fp.subrange(0, 3);
                    assert(all_digits(pre)) by {
                        assert(forall|k: int|
                            0 <= k < 3 ==> pre[k] == fp[k] && crate::text::is_digit_char(fp[k]));
                    }
                    lemma_digits_val_nonneg(pre);
                }
            }
        }
    }
}

/// The millisecond value of a fraction part, or `None` when it holds a
/// non-digit.
fn parse_frac_ms(f: &str) -> (r: Option<u64>)
    ensures
        (r is Some) == all_digits(f@),
        r matches Some(v) ==> v == spec_frac_ms(f@) && v < 1000,
{
    let fl = f.unicode_len();
    let mut i: usize = 0;
    while i < fl
        invariant
            fl == f@.len(),
            0 <= i <= fl,
            forall|k: int| 0 <= k < i ==> crate::text::is_digit_char(f@[k]),
        decreases fl - i,
    {
        let c = f.get_char(i);
        let u: u32 = c as u32;
        if u < 48 || u > 57 {
            assert(!crate::text::is_digit_char(f@[i as int]));
            return None;
        }
        i = i + 1;
    }
    if fl == 0 {
        return Some(0);
    }
    let take: usize = if fl < 3 {
        fl
    } else {
        3
    };
    let prefix = f.substring_char(0, take);
    proof {
        assert(all_digits(prefix@)) by {
            assert(forall|k: int|
                0 <= k < take ==> prefix@[k] == f@[k] && crate::text::is_digit_char(f@[k]));
        }
        crate::text::lemma_digits_val_bound(prefix@);
        assert(crate::text::pow10(0nat) == 1);
        assert(crate::text::pow10(1nat) == 10);
        assert(crate::text::pow10(2nat) == 100);
        assert(crate::text::pow10(3nat) == 1000);
        crate::text::lemma_digits_val_nonneg(prefix@);
    }
    let v = match parse_u64(prefix) {
        Some(v) => v,
        None => {
            // Unreachable: the prefix is non-empty, all digits, and at most
            // three of them, so it parses and stays below one thousand.
            proof {
                assert(false);
            }
            0
        },
    };
    if fl == 1 {
        proof {
            assert(prefix@ =~= f@);
        }
        Some(v * 100)
    } else if fl == 2 {
        proof {
            assert(prefix@ =~= f@);
        }
        Some(v * 10)
    } else {
        proof {
            assert(prefix@ =~= f@.subrange(0, 3));
        }
        Some(v)
    }
}

/// Joins whole seconds and fraction milliseconds, or rejects a value that
/// does not fit in `u64`.
fn combine_ms(secs: u64, frac: u64) -> (r: Option<u64>)
    requires
        frac < 1000,
    ensures
        r == if (secs as int) * 1000 + frac <= u64::MAX {
            Some(((secs as int) * 1000 + frac) as u64)
        } else {
            None::<u64>
        },
{
    if secs > (u64::MAX - frac) / 1000 {
        proof {
            assert((secs as int) * 1000 + frac > u64::MAX) by (nonlinear_arith)
                requires
                    secs as int > ((u64::MAX - frac) as int) / 1000,
                    0 <= frac < 1000,
            ;
        }
        None
    } else {
        proof {
            assert((secs as int) * 1000 + frac <= u64::MAX) by (nonlinear_arith)
                requires
                    0 <= secs as int <= ((u64::MAX - frac) as int) / 1000,
                    0 <= frac < 1000,
            ;
        }
        Some(secs * 1000 + frac)
    }
}

/// The integer part alone already overflows `u64`, so the whole value does.
proof fn lemma_retry_int_overflow(v: int, ip: Seq<char>, frac: int)
    requires
        all_digits(ip),
        digits_val(ip) > u64::MAX,
        v == digits_val(ip) * 1000 + frac,
        frac >= 0,
    ensures
        v > u64::MAX,
{
    lemma_digits_val_nonneg(ip);
    assert(digits_val(ip) * 1000 >= digits_val(ip)) by (nonlinear_arith)
        requires
            digits_val(ip) >= 0,
    ;
}

/// Parses a `Retry-After` value into milliseconds, rejecting malformed
/// strings and values that do not fit in `u64`.
pub fn parse_retry_after_ms(s: &str) -> (r: Option<u64>)
    ensures
        spec_retry_after_ms(s@) is None ==> r is None,
        spec_retry_after_ms(s@) matches Some(v) ==> if v <= u64::MAX {
            r == Some(v as u64)
        } else {
            r is None
        },
{
    let len = s.unicode_len();
    let i = find_sep(s, '.');
    proof {
        lemma_find_char(s@, '.');
    }
    if i == len {
        match parse_u64(s) {
            Some(secs) => {
                proof {
                    crate::text::lemma_digits_val_nonneg(s@);
                    assert(spec_retry_after_ms(s@) == Some(digits_val(s@) * 1000));
                }
                combine_ms(secs, 0)
            },
            None => {
                proof {
                    if spec_retry_after_ms(s@) is Some {
                        lemma_retry_int_overflow(
                            spec_retry_after_ms(s@).unwrap() as int,
                            s@,
                            0,
                        );
                    }
                }
                None
            },
        }
    } else {
        let ip = s.substring_char(0, i);
        let fp = s.substring_char(i + 1, len);
        let frac = match parse_frac_ms(fp) {
            Some(frac) => frac,
            None => {
                return None;
            },
        };
        match parse_u64(ip) {
            Some(secs) => {
                proof {
                    crate::text::lemma_digits_val_nonneg(ip@);
                    assert(spec_retry_after_ms(s@) == Some(
                        digits_val(ip@) * 1000 + spec_frac_ms(fp@),
                    ));
                }
                combine_ms(secs, frac)
            },
            None => {
                proof {
                    if spec_retry_after_ms(s@) is Some {
                        assert(all_digits(ip@) && digits_val(ip@) > u64::MAX);
                        lemma_retry_int_overflow(
                            spec_retry_after_ms(s@).unwrap() as int,
                            ip@,
                            spec_frac_ms(fp@) as int,
                        );
                    }
                }
                None
            },
        }
    }
}

} // verus!
