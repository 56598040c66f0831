//! Decimal digits and small string utilities used by the header grammar.
//!
//! Rate-limit headers are lists of decimal integers; these are the exact
//! parsing and printing primitives they rest on, specified over `Seq<char>`.

use vstd::prelude::*;

verus! {

/// A decimal digit `'0'..='9'`.
pub open spec fn is_digit_char(c: char) -> bool {
    48 <= c as u32 <= 57
}

/// The numeric value of a decimal digit.
pub open spec fn digit_val(c: char) -> int {
    c as u32 - 48
}

/// Every character is a decimal digit.
pub open spec fn all_digits(s: Seq<char>) -> bool {
    forall|i: int| 0 <= i < s.len() ==> is_digit_char(s[i])
}

/// The value of a digit string, most significant digit first.
pub open spec fn digits_val(s: Seq<char>) -> int
    decreases s.len(),
{
    if s.len() == 0 {
        0
    } else {
        digits_val(s.drop_last()) * 10 + digit_val(s.last())
    }
}

/// What parsing an unsigned decimal yields: the value of a non-empty
/// all-digit string that fits in `u64`, and nothing otherwise.
pub open spec fn spec_parse_u64(s: Seq<char>) -> Option<u64> {
    if s.len() > 0 && all_digits(s) && digits_val(s) <= u64::MAX {
        Some(digits_val(s) as u64)
    } else {
        None
    }
}

/// The digit character for a value in `0..=9`.
pub open spec fn digit_char(d: int) -> char {
    if d == 0 {
        '0'
    } else if d == 1 {
        '1'
    } else if d == 2 {
        '2'
    } else if d == 3 {
        '3'
    } else if d == 4 {
        '4'
    } else if d == 5 {
        '5'
    } else if d == 6 {
        '6'
    } else if d == 7 {
        '7'
    } else if d == 8 {
        '8'
    } else {
        '9'
    }
}

/// The canonical decimal rendering of a non-negative value.
pub open spec fn u64_to_digits(n: int) -> Seq<char>
    decreases n,
{
    if n < 10 {
        seq![digit_char(n)]
    } else {
        u64_to_digits(n / 10) + seq![digit_char(n % 10)]
    }
}

/// A canonical decimal string: non-empty digits without a leading zero.
pub open spec fn canonical_digits(s: Seq<char>) -> bool {
    &&& s.len() >= 1
    &&& all_digits(s)
    &&& (s.len() > 1 ==> s[0] != '0')
}

/// The code point of `digit_char(d)` is `48 + d`.
proof fn lemma_digit_char_u32(d: int)
    requires
        0 <= d < 10,
    ensures
        digit_char(d) as u32 == 48 + d,
        is_digit_char(digit_char(d)),
        digit_val(digit_char(d)) == d,
{
    if d == 0 {
        assert('0' as u32 == 48);
    } else if d == 1 {
        assert('1' as u32 == 49);
    } else if d == 2 {
        assert('2' as u32 == 50);
    } else if d == 3 {
        assert('3' as u32 == 51);
    } else if d == 4 {
        assert('4' as u32 == 52);
    } else if d == 5 {
        assert('5' as u32 == 53);
    } else if d == 6 {
        assert('6' as u32 == 54);
    } else if d == 7 {
        assert('7' as u32 == 55);
    } else if d == 8 {
        assert('8' as u32 == 56);
    } else {
        assert('9' as u32 == 57);
    }
}

/// A digit character is recovered from its value.
proof fn lemma_digit_char_of_val(c: char)
    requires
        is_digit_char(c),
    ensures
        digit_char(digit_val(c)) == c,
{
    let u = c as u32;
    let d = digit_val(c);
    lemma_digit_char_u32(d);
    vstd::utf8::char_u32_cast(c, u);
    vstd::utf8::char_u32_cast(digit_char(d), u);
}

/// A digit string never has a negative value.
pub proof fn lemma_digits_val_nonneg(s: Seq<char>)
    requires
        all_digits(s),
    ensures
        digits_val(s) >= 0,
    decreases s.len(),
{
    if s.len() > 0 {
        assert(all_digits(s.drop_last())) by {
            assert(forall|i: int|
                0 <= i < s.len() - 1 ==> s.drop_last()[i] == s[i] && is_digit_char(s[i]));
        }
        lemma_digits_val_nonneg(s.drop_last());
        assert(is_digit_char(s.last()));
    }
}

/// Appending one digit multiplies the value by ten and adds the digit.
pub proof fn lemma_digits_val_step(s: Seq<char>, i: int)
    requires
        0 <= i < s.len(),
    ensures
        digits_val(s.subrange(0, i + 1)) == digits_val(s.subrange(0, i)) * 10 + digit_val(s[i]),
{
    let p = s.subrange(0, i + 1);
    assert(p.drop_last() =~= s.subrange(0, i));
    assert(p.last() == s[i]);
}

/// The rendering of `n` consists of digits, is canonical, and parses back
/// to `n`.
pub proof fn lemma_u64_digits_props(n: int)
    requires
        n >= 0,
    ensures
        canonical_digits(u64_to_digits(n)),
        digits_val(u64_to_digits(n)) == n,
        n >= 1 ==> u64_to_digits(n)[0] != '0',
    decreases n,
{
    if n < 10 {
        let s = u64_to_digits(n);
        lemma_digit_char_u32(n);
        assert(s =~= seq![digit_char(n)]);
        assert(s.drop_last() =~= Seq::<char>::empty());
        assert(digits_val(Seq::<char>::empty()) == 0);
        assert(digits_val(s) == digit_val(digit_char(n)));
        if n >= 1 {
            assert('0' as u32 == 48);
            assert(s[0] as u32 != '0' as u32);
        }
    } else {
        lemma_u64_digits_props(n / 10);
        let hi = u64_to_digits(n / 10);
        let s = u64_to_digits(n);
        lemma_digit_char_u32(n % 10);
        assert(s == hi + seq![digit_char(n % 10)]);
        assert(s.drop_last() =~= hi);
        assert(s.last() == digit_char(n % 10));
        assert(0 <= n % 10 < 10);
        assert(digits_val(s) == digits_val(hi) * 10 + digit_val(digit_char(n % 10)));
        assert(digit_val(digit_char(n % 10)) == n % 10);
        assert((n / 10) * 10 + n % 10 == n) by (nonlinear_arith)
            requires
                n >= 10,
        ;
        assert(n / 10 >= 1) by (nonlinear_arith)
            requires
                n >= 10,
        ;
        assert(hi[0] != '0');
        assert(forall|i: int| 0 <= i < s.len() - 1 ==> s[i] == hi[i]);
        assert(s[0] == hi[0]);
    }
}

/// Rendering is the inverse of parsing: a canonical digit string is the
/// rendering of its own value.
pub proof fn lemma_digits_of_val(s: Seq<char>)
    requires
        canonical_digits(s),
    ensures
        u64_to_digits(digits_val(s)) == s,
    decreases s.len(),
{
    lemma_digits_val_nonneg(s);
    if s.len() == 1 {
        let d = digit_val(s[0]);
        assert(s.drop_last() =~= Seq::<char>::empty());
        assert(digits_val(Seq::<char>::empty()) == 0);
        assert(s.last() == s[0]);
        assert(digits_val(s) == d);
        assert(0 <= d < 10);
        lemma_digit_char_of_val(s[0]);
        assert(digit_char(d) == s[0]);
        assert(u64_to_digits(d) =~= s);
    } else {
        let hi = s.drop_last();
        assert(all_digits(hi)) by {
            assert(forall|i: int| 0 <= i < hi.len() ==> hi[i] == s[i] && is_digit_char(s[i]));
        }
        assert(hi[0] == s[0]);
        assert(canonical_digits(hi));
        lemma_digits_of_val(hi);
        lemma_digits_val_nonneg(hi);
        let d = digit_val(s.last());
        let v = digits_val(s);
        assert(v == digits_val(hi) * 10 + d);
        assert(0 <= d < 10);
        // `hi` is canonical and non-empty, so its value is at least one,
        // which makes `v` at least ten and fixes the div/mod decomposition.
        assert(digits_val(hi) >= 1) by {
            if digits_val(hi) == 0 {
                lemma_zero_val_digits(hi);
            }
        }
        assert(v / 10 == digits_val(hi) && v % 10 == d) by (nonlinear_arith)
            requires
                v == digits_val(hi) * 10 + d,
                0 <= d < 10,
                digits_val(hi) >= 1,
        ;
        assert(v >= 10) by (nonlinear_arith)
            requires
                v == digits_val(hi) * 10 + d,
                0 <= d,
                digits_val(hi) >= 1,
        ;
        assert(u64_to_digits(v) == u64_to_digits(v / 10) + seq![digit_char(v % 10)]);
        lemma_digit_char_of_val(s.last());
        assert(digit_char(d) == s.last());
        assert(u64_to_digits(v) =~= s);
    }
}

/// A canonical digit string with value zero is the single digit `'0'`.
proof fn lemma_zero_val_digits(s: Seq<char>)
    requires
        canonical_digits(s),
        digits_val(s) == 0,
    ensures
        s =~= seq!['0'],
    decreases s.len(),
{
    if s.len() > 1 {
        let hi = s.drop_last();
        assert(all_digits(hi)) by {
            assert(forall|i: int| 0 <= i < hi.len() ==> hi[i] == s[i] && is_digit_char(s[i]));
        }
        lemma_digits_val_nonneg(hi);
        let d = digit_val(s.last());
        assert(digits_val(s) == digits_val(hi) * 10 + d);
        assert(d >= 0);
        assert(digits_val(hi) * 10 >= digits_val(hi)) by (nonlinear_arith)
            requires
                digits_val(hi) >= 0,
        ;
        assert(digits_val(hi) == 0);
        assert(canonical_digits(hi));
        lemma_zero_val_digits(hi);
        assert(s[0] == hi[0]);
        assert(false);
    } else {
        assert(s.drop_last() =~= Seq::<char>::empty());
        assert(digits_val(Seq::<char>::empty()) == 0);
        assert(s.last() == s[0]);
        assert(digits_val(s) == digit_val(s[0]));
        assert(is_digit_char(s[0]));
        assert(s[0] as u32 == 48);
        assert(s[0] == '0') by {
            assert(('0' as u32) == 48);
            vstd::utf8::char_u32_cast(s[0], 48u32);
            vstd::utf8::char_u32_cast('0', 48u32);
        }
    }
}

/// Ten to the `n`.
pub open spec fn pow10(n: nat) -> int
    decreases n,
{
    if n == 0 {
        1
    } else {
        10 * pow10((n - 1) as nat)
    }
}

/// A digit string of length `n` has a value below ten to the `n`.
pub proof fn lemma_digits_val_bound(s: Seq<char>)
    requires
        all_digits(s),
    ensures
        digits_val(s) < pow10(s.len()),
    decreases s.len(),
{
    if s.len() == 0 {
    } else {
        assert(all_digits(s.drop_last())) by {
            assert(forall|i: int|
                0 <= i < s.len() - 1 ==> s.drop_last()[i] == s[i] && is_digit_char(s[i]));
        }
        lemma_digits_val_bound(s.drop_last());
        let a = digits_val(s.drop_last());
        let p = pow10((s.len() - 1) as nat);
        assert(a <= p - 1);
        assert(a * 10 <= (p - 1) * 10) by (nonlinear_arith)
            requires
                a <= p - 1,
        ;
        assert(is_digit_char(s.last()));
    }
}

/// Growing a prefix of a digit string never shrinks its value.
pub proof fn lemma_digits_val_prefix_le(s: Seq<char>, i: int)
    requires
        all_digits(s),
        0 <= i <= s.len(),
    ensures
        digits_val(s.subrange(0, i)) <= digits_val(s.subrange(0, s.len() as int)),
    decreases s.len() - i,
{
    if i < s.len() {
        lemma_digits_val_step(s, i);
        let a = digits_val(s.subrange(0, i));
        assert(all_digits(s.subrange(0, i))) by {
            assert(forall|k: int|
                0 <= k < i ==> s.subrange(0, i)[k] == s[k] && is_digit_char(s[k]));
        }
        lemma_digits_val_nonneg(s.subrange(0, i));
        assert(a * 10 >= a) by (nonlinear_arith)
            requires
                a >= 0,
        ;
        assert(digits_val(s.subrange(0, i + 1)) >= a);
        lemma_digits_val_prefix_le(s, i + 1);
    }
}

/// Parses a whole string as an unsigned decimal, rejecting anything that is
/// empty, holds a non-digit, or overflows `u64`.
pub fn parse_u64(s: &str) -> (r: Option<u64>)
    ensures
        r == spec_parse_u64(s@),
{
    let len = s.unicode_len();
    if len == 0 {
        return None;
    }
    let mut acc: u64 = 0;
    let mut i: usize = 0;
    while i < len
        invariant
            0 < len == s@.len(),
            0 <= i <= len,
            all_digits(s@.subrange(0, i as int)),
            acc == digits_val(s@.subrange(0, i as int)),
        decreases len - i,
    {
        let c = s.get_char(i);
        let u: u32 = c as u32;
        if u < 48 || u > 57 {
            assert(!is_digit_char(s@[i as int]));
            assert(!all_digits(s@));
            return None;
        }
        let d: u64 = (u - 48) as u64;
        proof {
            lemma_digits_val_step(s@, i as int);
        }
        if acc > (u64::MAX - d) / 10 {
            proof {
                let p = digits_val(s@.subrange(0, i as int));
                let q = digits_val(s@.subrange(0, i as int + 1));
                assert(q == p * 10 + d);
                assert(q > u64::MAX) by (nonlinear_arith)
                    requires
                        q == p * 10 + d,
                        p > (u64::MAX - d) / 10,
                        0 <= d <= 9,
                ;
                if all_digits(s@) {
                    lemma_digits_val_prefix_le(s@, i as int + 1);
                    assert(s@.subrange(0, s@.len() as int) =~= s@);
                }
            }
            return None;
        }
        proof {
            let p = acc as int;
            assert(p * 10 + d <= u64::MAX) by (nonlinear_arith)
                requires
                    0 <= p <= (u64::MAX - d) / 10,
                    0 <= d <= 9,
            ;
        }
        acc = acc * 10 + d;
        i = i + 1;
    }
    proof {
        assert(s@.subrange(0, len as int) =~= s@);
    }
    Some(acc)
}

/// The exec digit character for a value in `0..=9`.
fn digit_char_exec(d: u64) -> (c: char)
    requires
        d < 10,
    ensures
        c == digit_char(d as int),
{
    if d == 0 {
        '0'
    } else if d == 1 {
        '1'
    } else if d == 2 {
        '2'
    } else if d == 3 {
        '3'
    } else if d == 4 {
        '4'
    } else if d == 5 {
        '5'
    } else if d == 6 {
        '6'
    } else if d == 7 {
        '7'
    } else if d == 8 {
        '8'
    } else {
        '9'
    }
}

/// Appends the canonical decimal rendering of `n` to `out`.
pub fn push_u64_digits(n: u64, out: &mut Vec<char>)
    ensures
        final(out)@ == old(out)@ + u64_to_digits(n as int),
    decreases n,
{
    if n < 10 {
        out.push(digit_char_exec(n));
        proof {
            assert(final(out)@ =~= old(out)@ + u64_to_digits(n as int));
        }
    } else {
        push_u64_digits(n / 10, out);
        out.push(digit_char_exec(n % 10));
        proof {
            assert(final(out)@ =~= old(out)@ + u64_to_digits(n as int));
        }
    }
}

/// Character-for-character string equality.
pub fn str_eq(a: &str, b: &str) -> (r: bool)
    ensures
        r == (a@ == b@),
{
    let la = a.unicode_len();
    let lb = b.unicode_len();
    if la != lb {
        return false;
    }
    let mut i: usize = 0;
    while i < la
        invariant
            la == a@.len() == b@.len(),
            0 <= i <= la,
            forall|k: int| 0 <= k < i ==> a@[k] == b@[k],
        decreases la - i,
    {
        if a.get_char(i) != b.get_char(i) {
            return false;
        }
        i = i + 1;
    }
    proof {
        assert(a@ =~= b@);
    }
    true
}

/// The ASCII upper-case image of one character; everything outside
/// `'a'..='z'` is left alone.
pub open spec fn spec_upper_char(c: char) -> char {
    if 97 <= c as u32 <= 122 {
        ((c as u8) - 32) as char
    } else {
        c
    }
}

/// The ASCII upper-case image of a string.
pub open spec fn spec_upper(s: Seq<char>) -> Seq<char> {
    s.map_values(|c: char| spec_upper_char(c))
}

/// Upper-cases the ASCII letters of `s`; other characters pass through.
pub fn to_ascii_upper(s: &str) -> (r: Vec<char>)
    ensures
        r@ == spec_upper(s@),
{
    let len = s.unicode_len();
    let mut out: Vec<char> = Vec::new();
    let mut i: usize = 0;
    while i < len
        invariant
            len == s@.len(),
            0 <= i <= len,
            out@ == spec_upper(s@.subrange(0, i as int)),
        decreases len - i,
    {
        let c = s.get_char(i);
        let u: u32 = c as u32;
        let up: char = if u >= 97 && u <= 122 {
            ((c as u8) - 32) as char
        } else {
            c
        };
        out.push(up);
        i = i + 1;
        proof {
            assert(out@ =~= spec_upper(s@.subrange(0, i as int)));
        }
    }
    proof {
        assert(s@.subrange(0, len as int) =~= s@);
    }
    out
}

/// Collects the characters of `s` into a vector.
pub fn str_chars(s: &str) -> (r: Vec<char>)
    ensures
        r@ == s@,
{
    let len = s.unicode_len();
    let mut out: Vec<char> = Vec::new();
    let mut i: usize = 0;
    while i < len
        invariant
            len == s@.len(),
            0 <= i <= len,
            out@ == s@.subrange(0, i as int),
        decreases len - i,
    {
        out.push(s.get_char(i));
        i = i + 1;
        proof {
            assert(out@ =~= s@.subrange(0, i as int));
        }
    }
    proof {
        assert(s@.subrange(0, len as int) =~= s@);
    }
    out
}

/// The view of an optional string.
pub open spec fn view_opt_str(h: Option<&str>) -> Option<Seq<char>> {
    match h {
        Some(s) => Some(s@),
        None => None,
    }
}

/// Builds a `String` from its exact character sequence.
///
/// Relies on `String`'s `FromIterator<char>`: collecting characters yields
/// the string of exactly those characters in order.
#[verifier::external_body]
pub fn chars_to_string(v: &Vec<char>) -> (r: String)
    ensures
        r@ == v@,
{
    v.iter().collect()
}

} // verus!
