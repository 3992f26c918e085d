//! Character-level text utilities shared across the crate: string equality,
//! lexicographic ordering, substring search, decimal rendering, and the
//! trusted bridges to `std`'s string routines that Verus does not specify.

use vstd::prelude::*;

verus! {

/// Equality of two string slices, specified over their character views.
pub fn str_eq(a: &str, b: &str) -> (r: bool)
    ensures
        r == (a@ == b@),
{
    let x = a.to_owned();
    let y = b.to_owned();
    x == y
}

/// Lexicographic "less than or equal" over character sequences, ordering by
/// Unicode code point.
pub open spec fn lex_le(a: Seq<char>, b: Seq<char>) -> bool
    decreases a.len(),
{
    if a.len() == 0 {
        true
    } else if b.len() == 0 {
        false
    } else if a[0] != b[0] {
        a[0] < b[0]
    } else {
        lex_le(a.skip(1), b.skip(1))
    }
}

/// Strict lexicographic "less than".
pub open spec fn lex_lt(a: Seq<char>, b: Seq<char>) -> bool {
    lex_le(a, b) && a != b
}

/// Any two character sequences are comparable under `lex_le`.
pub proof fn lemma_lex_le_total(a: Seq<char>, b: Seq<char>)
    ensures
        lex_le(a, b) || lex_le(b, a),
    decreases a.len(),
{
    if a.len() == 0 || b.len() == 0 {
    } else if a[0] == b[0] {
        lemma_lex_le_total(a.skip(1), b.skip(1));
    }
}

/// `lex_le` in both directions only holds for equal sequences.
pub proof fn lemma_lex_le_antisym(a: Seq<char>, b: Seq<char>)
    requires
        lex_le(a, b),
        lex_le(b, a),
    ensures
        a == b,
    decreases a.len(),
{
    if a.len() == 0 {
        assert(b.len() == 0);
        assert(a =~= b);
    } else {
        assert(b.len() != 0);
        assert(a[0] == b[0]);
        lemma_lex_le_antisym(a.skip(1), b.skip(1));
        assert(a =~= seq![a[0]] + a.skip(1));
        assert(b =~= seq![b[0]] + b.skip(1));
    }
}

/// `lex_le` is transitive.
pub proof fn lemma_lex_le_trans(a: Seq<char>, b: Seq<char>, c: Seq<char>)
    requires
        lex_le(a, b),
        lex_le(b, c),
    ensures
        lex_le(a, c),
    decreases a.len(),
{
    if a.len() == 0 || b.len() == 0 || c.len() == 0 {
    } else if a[0] == b[0] && b[0] == c[0] {
        lemma_lex_le_trans(a.skip(1), b.skip(1), c.skip(1));
    }
}

/// Relies on `str`'s `PartialOrd`: `<=` on string slices is lexicographic by
/// byte, which for valid UTF-8 coincides with lexicographic order by code
/// point.
#[verifier::external_body]
pub fn str_le(a: &str, b: &str) -> (r: bool)
    ensures
        r == lex_le(a@, b@),
{
    a <= b
}

/// `needle` occurs contiguously inside `hay`.
pub open spec fn contains_seq(hay: Seq<char>, needle: Seq<char>) -> bool {
    exists|i: int|
        0 <= i && i + needle.len() <= hay.len() && #[trigger] hay.subrange(i, i + needle.len())
            == needle
}

/// Relies on `str::contains` with a `&str` pattern: true exactly when the
/// pattern matches a sub-slice of the string.
#[verifier::external_body]
pub fn str_contains(hay: &str, needle: &str) -> (r: bool)
    ensures
        r == contains_seq(hay@, needle@),
{
    hay.contains(needle)
}

/// The Unicode lowercasing of a sequence of characters, as performed by
/// `str::to_lowercase`; a function of the characters alone.
pub uninterp spec fn lower_of(s: Seq<char>) -> Seq<char>;

/// Relies on `str::to_lowercase`: the result depends only on the characters
/// of the input, and an empty input stays empty.
#[verifier::external_body]
pub fn to_lowercase(s: &str) -> (r: String)
    ensures
        r@ == lower_of(s@),
        s@.len() == 0 ==> r@.len() == 0,
{
    s.to_lowercase()
}

/// Relies on `FromIterator<char> for String`: collecting characters yields a
/// string whose view is exactly the collected sequence.
#[verifier::external_body]
pub fn string_from_chars(v: &Vec<char>) -> (r: String)
    ensures
        r@ == v@,
{
    v.iter().collect()
}

/// Relies on `String::push`: appends one character.
#[verifier::external_body]
pub fn push_char(s: &mut String, c: char)
    ensures
        final(s)@ == old(s)@.push(c),
{
    s.push(c);
}

/// Relies on `String::pop`: removes and returns the last character, or
/// leaves an empty string unchanged.
#[verifier::external_body]
pub fn pop_char(s: &mut String) -> (r: Option<char>)
    ensures
        old(s)@.len() == 0 ==> final(s)@ == old(s)@ && r is None,
        old(s)@.len() > 0 ==> final(s)@ == old(s)@.drop_last() && r == Some(old(s)@.last()),
{
    s.pop()
}

/// The decimal digit character for a value in `0..10`.
pub open spec fn dec_digit(d: int) -> char {
    if d == 0 {
        '0'
    } else if d == 1 {
        '1'
    } else if d == 2 {
        '2'
    } else if d == 3 {
        '3'
    } else if d == 4 {
        '4'
    } else if d == 5 {
        '5'
    } else if d == 6 {
        '6'
    } else if d == 7 {
        '7'
    } else if d == 8 {
        '8'
    } else {
        '9'
    }
}

/// The decimal rendering of a non-negative integer, without sign or padding.
pub open spec fn dec_str(n: int) -> Seq<char>
    decreases n,
{
    if n < 10 {
        seq![dec_digit(n)]
    } else {
        dec_str(n / 10).push(dec_digit(n % 10))
    }
}

fn digit_char(d: u64) -> (c: char)
    requires
        d < 10,
    ensures
        c == dec_digit(d as int),
{
    if d == 0 {
        '0'
    } else if d == 1 {
        '1'
    } else if d == 2 {
        '2'
    } else if d == 3 {
        '3'
    } else if d == 4 {
        '4'
    } else if d == 5 {
        '5'
    } else if d == 6 {
        '6'
    } else if d == 7 {
        '7'
    } else if d == 8 {
        '8'
    } else {
        '9'
    }
}

/// The decimal digits of `n`.
pub fn u64_dec_chars(n: u64) -> (r: Vec<char>)
    ensures
        r@ == dec_str(n as int),
    decreases n,
{
    if n < 10 {
        let mut r: Vec<char> = Vec::new();
        r.push(digit_char(n));
        r
    } else {
        let mut r = u64_dec_chars(n / 10);
        r.push(digit_char(n % 10));
        r
    }
}

/// The decimal rendering of `n` as a `String`.
pub fn u64_to_string(n: u64) -> (r: String)
    ensures
        r@ == dec_str(n as int),
{
    let v = u64_dec_chars(n);
    string_from_chars(&v)
}

/// Every character is an ASCII decimal digit.
pub open spec fn all_digits(s: Seq<char>) -> bool {
    forall|i: int| 0 <= i < s.len() ==> '0' <= #[trigger] s[i] <= '9'
}

/// The numeric value of one digit character.
pub open spec fn digit_val(c: char) -> int {
    c as int - '0' as int
}

/// The value of a digit string, most significant digit first.
pub open spec fn dec_val(s: Seq<char>) -> int
    decreases s.len(),
{
    if s.len() == 0 {
        0
    } else {
        dec_val(s.drop_last()) * 10 + digit_val(s.last())
    }
}

/// A digit string has a non-negative value.
pub proof fn lemma_dec_val_nonneg(s: Seq<char>)
    requires
        all_digits(s),
    ensures
        dec_val(s) >= 0,
    decreases s.len(),
{
    if s.len() > 0 {
        assert(all_digits(s.drop_last()));
        lemma_dec_val_nonneg(s.drop_last());
    }
}

/// A longer digit prefix never has a smaller value.
pub proof fn lemma_dec_val_prefix(s: Seq<char>, i: int)
    requires
        0 <= i <= s.len(),
        all_digits(s),
    ensures
        dec_val(s) >= dec_val(s.take(i)),
    decreases s.len() - i,
{
    if i < s.len() {
        lemma_dec_val_prefix(s, i + 1);
        assert(s.take(i + 1).drop_last() =~= s.take(i));
        assert(all_digits(s.take(i)));
        lemma_dec_val_nonneg(s.take(i));
        assert(dec_val(s.take(i + 1)) == dec_val(s.take(i)) * 10 + digit_val(s[i]));
    } else {
        assert(s.take(i) =~= s);
    }
}

/// The input strips an optional single leading `'+'`, then is one or more
/// digits whose value fits in a `u64`; this is how `u64::from_str` accepts a
/// string.
pub open spec fn valid_u64_str(s: Seq<char>) -> bool {
    let t = if s.len() > 0 && s[0] == '+' {
        s.skip(1)
    } else {
        s
    };
    t.len() > 0 && all_digits(t) && dec_val(t) <= u64::MAX
}

/// The `u64` denoted by `s`, or `None` where `s` is not a valid `u64`
/// string.
pub open spec fn parse_u64_spec(s: Seq<char>) -> Option<u64> {
    let t = if s.len() > 0 && s[0] == '+' {
        s.skip(1)
    } else {
        s
    };
    if valid_u64_str(s) {
        Some(dec_val(t) as u64)
    } else {
        None
    }
}

/// Parses a decimal `u64` as `u64::from_str` would, `None` for anything
/// malformed or out of range.
pub fn parse_u64_opt(v: &Vec<char>) -> (r: Option<u64>)
    ensures
        r == parse_u64_spec(v@),
{
    let ghost s = v@;
    let start: usize = if v.len() > 0 && v[0] == '+' {
        1
    } else {
        0
    };
    let ghost t = if s.len() > 0 && s[0] == '+' {
        s.skip(1)
    } else {
        s
    };
    assert(t =~= s.skip(start as int));
    if v.len() == start {
        return None;
    }
    let mut acc: u64 = 0;
    let mut i: usize = start;
    while i < v.len()
        invariant
            start <= i <= v.len(),
            s == v@,
            t == s.skip(start as int),
            t == (if s.len() > 0 && s[0] == '+' {
                s.skip(1)
            } else {
                s
            }),
            start == (if s.len() > 0 && s[0] == '+' {
                1int
            } else {
                0int
            }),
            all_digits(t.take(i - start)),
            acc as int == dec_val(t.take(i - start)),
        decreases v.len() - i,
    {
        let c = v[i];
        if c < '0' || c > '9' {
            assert(!all_digits(t)) by {
                assert(t[i - start] == c);
            }
            return None;
        }
        let d: u64 = (c as u32 - '0' as u32) as u64;
        assert(d == digit_val(c));
        if acc > (u64::MAX - d) / 10 {
            proof {
                let k = i - start;
                assert(t.take(k + 1).drop_last() =~= t.take(k));
                assert(t[k] == c);
                assert(dec_val(t.take(k + 1)) == acc * 10 + d);
                assert(acc * 10 >= ((u64::MAX - d) / 10 + 1) * 10);
                assert(acc * 10 + d > u64::MAX);
                if all_digits(t) {
                    lemma_dec_val_prefix(t, k + 1);
                    assert(dec_val(t) > u64::MAX);
                }
                assert(!valid_u64_str(s));
            }
            return None;
        }
        proof {
            assert(t.take(i - start + 1).drop_last() =~= t.take(i - start));
        }
        acc = acc * 10 + d;
        i = i + 1;
    }
    proof {
        assert(t.take(i - start) =~= t);
        lemma_dec_val_nonneg(t);
    }
    Some(acc)
}

/// Parses a decimal `u64`, defaulting to 0 where malformed, as a tolerant
/// metrics field parser requires.
pub fn parse_u64_or_zero(v: &Vec<char>) -> (r: u64)
    ensures
        r == parse_u64_spec(v@).unwrap_or(0),
{
    match parse_u64_opt(v) {
        Some(n) => n,
        None => 0,
    }
}

/// The value in hundredths contributed by a fractional digit string; only
/// the first two fractional digits matter, further precision is discarded.
pub open spec fn frac_hundredths(f: Seq<char>) -> int {
    if f.len() == 0 {
        0
    } else if f.len() == 1 {
        digit_val(f[0]) * 10
    } else {
        digit_val(f[0]) * 10 + digit_val(f[1])
    }
}

/// The integer part of `s` (before the first `'.'`).
pub open spec fn fixed_int_part(s: Seq<char>) -> Seq<char> {
    s.take(find_char(s, '.'))
}

/// The fractional part of `s` (after the first `'.'`), empty if no dot.
pub open spec fn fixed_frac_part(s: Seq<char>) -> Seq<char> {
    if find_char(s, '.') == s.len() {
        Seq::empty()
    } else {
        s.skip(find_char(s, '.') + 1)
    }
}

/// `s` is a plain non-negative decimal numeral, optionally with a dot and a
/// fractional part, whose value in hundredths fits in a `u64`.
pub open spec fn valid_fixed_str(s: Seq<char>) -> bool {
    let ip = fixed_int_part(s);
    let fp = fixed_frac_part(s);
    &&& ip.len() + fp.len() > 0
    &&& all_digits(ip)
    &&& all_digits(fp)
    &&& dec_val(ip) * 100 + frac_hundredths(fp) <= u64::MAX
}

/// The value of `s` in hundredths (two fractional digits kept, the rest
/// discarded), or `None` where `s` is not a valid fixed-point numeral.
pub open spec fn parse_hundredths_spec(s: Seq<char>) -> Option<u64> {
    if valid_fixed_str(s) {
        Some((dec_val(fixed_int_part(s)) * 100 + frac_hundredths(fixed_frac_part(s))) as u64)
    } else {
        None
    }
}

/// Parses a non-negative decimal numeral with an optional fractional part
/// into hundredths; `None` for anything malformed or out of range.
pub fn parse_hundredths_opt(v: &Vec<char>) -> (r: Option<u64>)
    ensures
        r == parse_hundredths_spec(v@),
{
    let ghost s = v@;
    // locate the first dot
    let mut dot: usize = 0;
    while dot < v.len() && v[dot] != '.'
        invariant
            0 <= dot <= v.len(),
            s == v@,
            forall|j: int| 0 <= j < dot ==> s[j] != '.',
        decreases v.len() - dot,
    {
        dot = dot + 1;
    }
    proof {
        lemma_find_char(s, '.', dot as int);
    }
    let ip = subvec(v, 0, dot);
    let fp = if dot == v.len() {
        Vec::<char>::new()
    } else {
        subvec(v, dot + 1, v.len())
    };
    proof {
        assert(ip@ =~= fixed_int_part(s));
        if dot < v.len() {
            assert(fp@ =~= fixed_frac_part(s));
        } else {
            assert(fp@ =~= fixed_frac_part(s));
        }
    }
    if ip.len() == 0 && fp.len() == 0 {
        return None;
    }
    // digits of the fractional part, and its value in hundredths
    let mut k: usize = 0;
    let mut frac: u64 = 0;
    while k < fp.len()
        invariant
            0 <= k <= fp@.len(),
            s == v@,
            fp@ == fixed_frac_part(s),
            all_digits(fp@.take(k as int)),
            frac as int == frac_hundredths(fp@.take(k as int)),
            frac <= 99,
        decreases fp.len() - k,
    {
        let c = fp[k];
        if c < '0' || c > '9' {
            assert(!all_digits(fp@)) by {
                assert(fp@[k as int] == c);
            }
            return None;
        }
        proof {
            assert(all_digits(fp@.take(k + 1))) by {
                assert(forall|j: int|
                    0 <= j < k + 1 ==> fp@.take(k + 1)[j] == fp@.take(k as int)[j] || j == k);
            }
        }
        if k == 0 {
            frac = ((c as u32 - '0' as u32) as u64) * 10;
        } else if k == 1 {
            frac = frac + (c as u32 - '0' as u32) as u64;
        }
        proof {
            let t1 = fp@.take(k + 1);
            if k == 0 {
                assert(frac as int == frac_hundredths(t1));
            } else if k == 1 {
                assert(t1[0] == fp@.take(1)[0]);
                assert(frac as int == frac_hundredths(t1));
            } else {
                assert(t1[0] == fp@.take(k as int)[0] && t1[1] == fp@.take(k as int)[1]);
                assert(frac as int == frac_hundredths(t1));
            }
        }
        k = k + 1;
    }
    proof {
        assert(fp@.take(k as int) =~= fp@);
    }
    // digits of the integer part, with an overflow guard
    let mut acc: u64 = 0;
    let mut i: usize = 0;
    while i < ip.len()
        invariant
            0 <= i <= ip@.len(),
            s == v@,
            ip@ == fixed_int_part(s),
            fp@ == fixed_frac_part(s),
            all_digits(fp@),
            frac as int == frac_hundredths(fp@),
            frac <= 99,
            all_digits(ip@.take(i as int)),
            acc as int == dec_val(ip@.take(i as int)),
        decreases ip.len() - i,
    {
        let c = ip[i];
        if c < '0' || c > '9' {
            assert(!all_digits(ip@)) by {
                assert(ip@[i as int] == c);
            }
            return None;
        }
        let d: u64 = (c as u32 - '0' as u32) as u64;
        assert(d == digit_val(c));
        if acc > (u64::MAX - d) / 10 {
            proof {
                assert(ip@.take(i + 1).drop_last() =~= ip@.take(i as int));
                assert(ip@[i as int] == c);
                assert(dec_val(ip@.take(i + 1)) == acc * 10 + d);
                assert(acc * 10 >= ((u64::MAX - d) / 10 + 1) * 10);
                assert(acc * 10 + d > u64::MAX);
                if all_digits(ip@) {
                    lemma_dec_val_prefix(ip@, i + 1);
                    lemma_dec_val_nonneg(ip@);
                    assert(dec_val(ip@) > u64::MAX);
                    assert(dec_val(ip@) * 100 >= dec_val(ip@)) by (nonlinear_arith)
                        requires
                            dec_val(ip@) > 0,
                    ;
                }
                assert(!valid_fixed_str(s));
            }
            return None;
        }
        proof {
            assert(ip@.take(i + 1).drop_last() =~= ip@.take(i as int));
        }
        acc = acc * 10 + d;
        i = i + 1;
    }
    proof {
        assert(ip@.take(i as int) =~= ip@);
        lemma_dec_val_nonneg(ip@);
    }
    // combine, guarding the final scale-and-add
    if acc > (u64::MAX - frac) / 100 {
        proof {
            assert(acc * 100 >= ((u64::MAX - frac) / 100 + 1) * 100);
            assert(acc * 100 + frac > u64::MAX);
            assert(!valid_fixed_str(s));
        }
        return None;
    }
    proof {
        assert(acc * 100 <= ((u64::MAX - frac) / 100) * 100);
        assert(acc * 100 + frac <= u64::MAX);
        assert(valid_fixed_str(s));
    }
    Some(acc * 100 + frac)
}

/// Parses a fixed-point numeral into hundredths, defaulting to 0 where
/// malformed.
pub fn parse_hundredths_or_zero(v: &Vec<char>) -> (r: u64)
    ensures
        r == parse_hundredths_spec(v@).unwrap_or(0),
{
    match parse_hundredths_opt(v) {
        Some(n) => n,
        None => 0,
    }
}

/// The first index where `c` occurs in `s`, or `s.len()` if it does not.
pub open spec fn find_char(s: Seq<char>, c: char) -> int
    decreases s.len(),
{
    if s.len() == 0 {
        0
    } else if s[0] == c {
        0
    } else {
        1 + find_char(s.skip(1), c)
    }
}

/// `find_char` is the first occurrence: characterised by its prefix.
pub proof fn lemma_find_char(s: Seq<char>, c: char, k: int)
    requires
        0 <= k <= s.len(),
        forall|j: int| 0 <= j < k ==> s[j] != c,
        k == s.len() || s[k] == c,
    ensures
        find_char(s, c) == k,
    decreases k,
{
    if k > 0 {
        lemma_find_char(s.skip(1), c, k - 1);
    }
}

/// `find_char` always lands on `c` or on the end.
pub proof fn lemma_find_char_bounds(s: Seq<char>, c: char)
    ensures
        0 <= find_char(s, c) <= s.len(),
        find_char(s, c) < s.len() ==> s[find_char(s, c)] == c,
        forall|j: int| 0 <= j < find_char(s, c) ==> s[j] != c,
    decreases s.len(),
{
    if s.len() > 0 && s[0] != c {
        lemma_find_char_bounds(s.skip(1), c);
        assert forall|j: int| 0 <= j < find_char(s, c) implies s[j] != c by {
            if j > 0 {
                assert(s.skip(1)[j - 1] != c);
            }
        }
    }
}

/// The pieces of `s` split at every occurrence of `c`; empty pieces are
/// kept, and a string without `c` is a single piece.
pub open spec fn split_char_spec(s: Seq<char>, c: char) -> Seq<Seq<char>>
    decreases s.len() via split_char_spec_decreases
{
    let k = find_char(s, c);
    if k == s.len() {
        seq![s]
    } else {
        seq![s.take(k)] + split_char_spec(s.skip(k + 1), c)
    }
}

#[via_fn]
proof fn split_char_spec_decreases(s: Seq<char>, c: char) {
    lemma_find_char_bounds(s, c);
}

/// Splits at every occurrence of `c`, as `str::split` does with a `char`
/// pattern.
pub fn split_char(v: &Vec<char>, c: char) -> (r: Vec<Vec<char>>)
    ensures
        r@.map_values(|p: Vec<char>| p@) == split_char_spec(v@, c),
{
    let ghost s = v@;
    let mut done: Vec<Vec<char>> = Vec::new();
    let mut cur: Vec<char> = Vec::new();
    let mut start: usize = 0;
    let mut i: usize = 0;
    proof {
        assert(s.skip(0) =~= s);
        assert(cur@ =~= s.subrange(0, 0));
        assert(done@.map_values(|p: Vec<char>| p@) + split_char_spec(s, c) =~= split_char_spec(
            s,
            c,
        ));
    }
    while i < v.len()
        invariant
            0 <= start <= i <= v.len(),
            s == v@,
            cur@ == s.subrange(start as int, i as int),
            forall|j: int| start <= j < i ==> s[j] != c,
            split_char_spec(s, c) == done@.map_values(|p: Vec<char>| p@) + split_char_spec(
                s.skip(start as int),
                c,
            ),
        decreases v.len() - i,
    {
        if v[i] == c {
            proof {
                let rest = s.skip(start as int);
                lemma_find_char(rest, c, i - start);
                assert(rest.take(i - start) =~= s.subrange(start as int, i as int));
                assert(rest.skip(i - start + 1) =~= s.skip(i + 1));
                assert(split_char_spec(rest, c) == seq![cur@] + split_char_spec(s.skip(i + 1), c));
                assert(done@.push(cur).map_values(|p: Vec<char>| p@) =~= done@.map_values(
                    |p: Vec<char>| p@,
                ).push(cur@));
                assert(done@.map_values(|p: Vec<char>| p@) + (seq![cur@] + split_char_spec(
                    s.skip(i + 1),
                    c,
                )) =~= done@.map_values(|p: Vec<char>| p@).push(cur@) + split_char_spec(
                    s.skip(i + 1),
                    c,
                ));
            }
            done.push(cur);
            cur = Vec::new();
            start = i + 1;
            assert(cur@ =~= s.subrange(start as int, start as int));
        } else {
            cur.push(v[i]);
            assert(cur@ =~= s.subrange(start as int, i + 1));
        }
        i = i + 1;
    }
    proof {
        let rest = s.skip(start as int);
        lemma_find_char(rest, c, i - start);
        assert(rest =~= s.subrange(start as int, i as int));
        assert(split_char_spec(rest, c) == seq![rest]);
        assert(done@.push(cur).map_values(|p: Vec<char>| p@) =~= done@.map_values(
            |p: Vec<char>| p@,
        ).push(cur@));
        assert(done@.map_values(|p: Vec<char>| p@) + seq![rest] =~= done@.map_values(
            |p: Vec<char>| p@,
        ).push(cur@));
    }
    done.push(cur);
    done
}

/// ASCII whitespace, the separator class used by this crate's tokenisers.
pub open spec fn is_ws(c: char) -> bool {
    c == ' ' || c == '\t' || c == '\r' || c == '\n'
}

fn is_ws_exec(c: char) -> (r: bool)
    ensures
        r == is_ws(c),
{
    c == ' ' || c == '\t' || c == '\r' || c == '\n'
}

/// How many characters of leading whitespace `s` has.
pub open spec fn leading_ws(s: Seq<char>) -> int
    decreases s.len(),
{
    if s.len() == 0 || !is_ws(s[0]) {
        0
    } else {
        1 + leading_ws(s.skip(1))
    }
}

pub proof fn lemma_leading_ws(s: Seq<char>, k: int)
    requires
        0 <= k <= s.len(),
        forall|j: int| 0 <= j < k ==> is_ws(s[j]),
        k == s.len() || !is_ws(s[k]),
    ensures
        leading_ws(s) == k,
    decreases k,
{
    if k > 0 {
        lemma_leading_ws(s.skip(1), k - 1);
    }
}

/// `s` with leading and trailing ASCII whitespace removed.
pub open spec fn trim_spec(s: Seq<char>) -> Seq<char> {
    let lead = leading_ws(s);
    if lead == s.len() {
        Seq::empty()
    } else {
        let tail = leading_ws(s.reverse());
        s.subrange(lead, s.len() - tail)
    }
}

/// Removes leading and trailing ASCII whitespace.
pub fn trim(v: &Vec<char>) -> (r: Vec<char>)
    ensures
        r@ == trim_spec(v@),
{
    let ghost s = v@;
    let mut lo: usize = 0;
    while lo < v.len() && is_ws_exec(v[lo])
        invariant
            0 <= lo <= v.len(),
            s == v@,
            forall|j: int| 0 <= j < lo ==> is_ws(s[j]),
        decreases v.len() - lo,
    {
        lo = lo + 1;
    }
    proof {
        lemma_leading_ws(s, lo as int);
    }
    if lo == v.len() {
        let r: Vec<char> = Vec::new();
        assert(r@ =~= trim_spec(s));
        return r;
    }
    let mut hi: usize = v.len();
    while hi > lo && is_ws_exec(v[hi - 1])
        invariant
            lo <= hi <= v.len(),
            s == v@,
            forall|j: int| hi <= j < v.len() ==> is_ws(s[j]),
            !is_ws(s[lo as int]),
        decreases hi,
    {
        hi = hi - 1;
    }
    proof {
        assert(forall|j: int|
            0 <= j < s.len() - hi ==> is_ws(#[trigger] s.reverse()[j]) && s.reverse()[j] == s[s.len() - 1 - j]);
        assert(!is_ws(s.reverse()[s.len() - hi]) || s.len() - hi == s.reverse().len());
        lemma_leading_ws(s.reverse(), s.len() - hi);
    }
    let r = subvec(v, lo, hi);
    proof {
        assert(r@ =~= trim_spec(s));
    }
    r
}

/// The first index of an ASCII whitespace character, or `s.len()`.
pub open spec fn find_ws(s: Seq<char>) -> int
    decreases s.len(),
{
    if s.len() == 0 {
        0
    } else if is_ws(s[0]) {
        0
    } else {
        1 + find_ws(s.skip(1))
    }
}

pub proof fn lemma_find_ws(s: Seq<char>, k: int)
    requires
        0 <= k <= s.len(),
        forall|j: int| 0 <= j < k ==> !is_ws(s[j]),
        k == s.len() || is_ws(s[k]),
    ensures
        find_ws(s) == k,
    decreases k,
{
    if k > 0 {
        lemma_find_ws(s.skip(1), k - 1);
    }
}

pub proof fn lemma_find_ws_bounds(s: Seq<char>)
    ensures
        0 <= find_ws(s) <= s.len(),
    decreases s.len(),
{
    if s.len() > 0 && !is_ws(s[0]) {
        lemma_find_ws_bounds(s.skip(1));
    }
}

/// The maximal runs of non-whitespace characters of `s`, in order; no piece
/// is empty, matching `str::split_whitespace` over ASCII whitespace.
pub open spec fn split_ws_spec(s: Seq<char>) -> Seq<Seq<char>>
    decreases s.len() via split_ws_spec_decreases
{
    if s.len() == 0 {
        Seq::empty()
    } else if is_ws(s[0]) {
        split_ws_spec(s.skip(1))
    } else {
        let k = find_ws(s);
        seq![s.take(k)] + split_ws_spec(s.skip(k))
    }
}

#[via_fn]
proof fn split_ws_spec_decreases(s: Seq<char>) {
    if s.len() > 0 && !is_ws(s[0]) {
        lemma_find_ws_bounds(s.skip(1));
    }
}

/// Splits into maximal whitespace-free tokens.
pub fn split_ws(v: &Vec<char>) -> (r: Vec<Vec<char>>)
    ensures
        r@.map_values(|p: Vec<char>| p@) == split_ws_spec(v@),
{
    let ghost s = v@;
    let mut done: Vec<Vec<char>> = Vec::new();
    let mut i: usize = 0;
    proof {
        assert(s.skip(0) =~= s);
        assert(done@.map_values(|p: Vec<char>| p@) + split_ws_spec(s) =~= split_ws_spec(s));
    }
    while i < v.len()
        invariant
            0 <= i <= v.len(),
            s == v@,
            split_ws_spec(s) == done@.map_values(|p: Vec<char>| p@) + split_ws_spec(
                s.skip(i as int),
            ),
        decreases v.len() - i,
    {
        if is_ws_exec(v[i]) {
            proof {
                assert(s.skip(i as int).skip(1) =~= s.skip(i + 1));
            }
            i = i + 1;
        } else {
            let mut j: usize = i;
            while j < v.len() && !is_ws_exec(v[j])
                invariant
                    i <= j <= v.len(),
                    s == v@,
                    forall|q: int| i <= q < j ==> !is_ws(s[q]),
                decreases v.len() - j,
            {
                j = j + 1;
            }
            let piece = subvec(v, i, j);
            proof {
                let rest = s.skip(i as int);
                lemma_find_ws(rest, j - i);
                assert(rest.take(j - i) =~= s.subrange(i as int, j as int));
                assert(rest.skip(j - i) =~= s.skip(j as int));
                assert(split_ws_spec(rest) == seq![piece@] + split_ws_spec(s.skip(j as int)));
                assert(done@.push(piece).map_values(|p: Vec<char>| p@) =~= done@.map_values(
                    |p: Vec<char>| p@,
                ).push(piece@));
                assert(done@.map_values(|p: Vec<char>| p@) + (seq![piece@] + split_ws_spec(
                    s.skip(j as int),
                )) =~= done@.map_values(|p: Vec<char>| p@).push(piece@) + split_ws_spec(
                    s.skip(j as int),
                ));
            }
            done.push(piece);
            i = j;
        }
    }
    proof {
        assert(s.skip(i as int) =~= Seq::<char>::empty());
        assert(split_ws_spec(Seq::<char>::empty()) =~= Seq::<Seq<char>>::empty());
        assert(done@.map_values(|p: Vec<char>| p@) + Seq::<Seq<char>>::empty() =~= done@.map_values(
            |p: Vec<char>| p@,
        ));
    }
    done
}

/// One raw line piece with a trailing carriage return removed.
pub open spec fn strip_cr(p: Seq<char>) -> Seq<char> {
    if p.len() > 0 && p.last() == '\r' {
        p.drop_last()
    } else {
        p
    }
}

/// The lines of `s`: pieces split at `'\n'`, a final empty piece dropped,
/// and a trailing `'\r'` removed from each piece, as `str::lines` does.
pub open spec fn lines_spec(s: Seq<char>) -> Seq<Seq<char>> {
    let parts = split_char_spec(s, '\n');
    let kept = if parts.len() > 0 && parts.last().len() == 0 {
        parts.drop_last()
    } else {
        parts
    };
    kept.map_values(|p: Seq<char>| strip_cr(p))
}

/// Splits `v` into lines.
pub fn split_lines(v: &Vec<char>) -> (r: Vec<Vec<char>>)
    ensures
        r@.map_values(|p: Vec<char>| p@) == lines_spec(v@),
{
    let mut parts = split_char(v, '\n');
    let ghost parts0 = parts@.map_values(|p: Vec<char>| p@);
    if parts.len() > 0 {
        let last_empty = parts[parts.len() - 1].len() == 0;
        if last_empty {
            parts.pop();
        }
    }
    let ghost kept = parts@.map_values(|p: Vec<char>| p@);
    proof {
        if parts0.len() > 0 && parts0.last().len() == 0 {
            assert(kept =~= parts0.drop_last());
        } else {
            assert(kept =~= parts0);
        }
    }
    let mut r: Vec<Vec<char>> = Vec::new();
    let mut i: usize = 0;
    while i < parts.len()
        invariant
            0 <= i <= parts.len(),
            kept == parts@.map_values(|p: Vec<char>| p@),
            r@.map_values(|p: Vec<char>| p@) =~= kept.map_values(|p: Seq<char>| strip_cr(p)).take(
                i as int,
            ),
        decreases parts.len() - i,
    {
        let p = &parts[i];
        let n = p.len();
        let stripped: Vec<char> = if n > 0 && p[n - 1] == '\r' {
            subvec(p, 0, n - 1)
        } else {
            subvec(p, 0, n)
        };
        proof {
            assert(p@.subrange(0, p@.len() as int) =~= p@);
            if p@.len() > 0 && p@.last() == '\r' {
                assert(p@.subrange(0, p@.len() - 1) =~= p@.drop_last());
            }
            assert(stripped@ == strip_cr(kept[i as int]));
        }
        let ghost rold = r@;
        r.push(stripped);
        proof {
            assert(r@.map_values(|p: Vec<char>| p@) =~= rold.map_values(|p: Vec<char>| p@).push(
                strip_cr(kept[i as int]),
            ));
            assert(kept.map_values(|p: Seq<char>| strip_cr(p)).take(i + 1) =~= kept.map_values(
                |p: Seq<char>| strip_cr(p),
            ).take(i as int).push(strip_cr(kept[i as int])));
        }
        i = i + 1;
    }
    proof {
        assert(kept.map_values(|p: Seq<char>| strip_cr(p)).take(i as int) =~= kept.map_values(
            |p: Seq<char>| strip_cr(p),
        ));
    }
    r
}

/// `v` begins with the characters of `p`.
pub fn has_prefix(v: &Vec<char>, p: &str) -> (r: bool)
    ensures
        r == (v@.len() >= p@.len() && v@.take(p@.len() as int) == p@),
{
    let pc = chars_vec(p);
    if v.len() < pc.len() {
        return false;
    }
    let mut i: usize = 0;
    while i < pc.len()
        invariant
            0 <= i <= pc.len() <= v.len(),
            pc@ == p@,
            forall|j: int| 0 <= j < i ==> v@[j] == p@[j],
        decreases pc.len() - i,
    {
        if v[i] != pc[i] {
            assert(v@.take(p@.len() as int)[i as int] != p@[i as int]);
            return false;
        }
        i = i + 1;
    }
    proof {
        assert(v@.take(p@.len() as int) =~= p@);
    }
    true
}

/// A key/value separator of the configuration syntax: whitespace or
/// `'='`.
pub open spec fn is_key_sep(c: char) -> bool {
    is_ws(c) || c == '='
}

/// The first index of a key/value separator, or `s.len()`.
pub open spec fn find_sep(s: Seq<char>) -> int
    decreases s.len(),
{
    if s.len() == 0 {
        0
    } else if is_key_sep(s[0]) {
        0
    } else {
        1 + find_sep(s.skip(1))
    }
}

pub proof fn lemma_find_sep(s: Seq<char>, k: int)
    requires
        0 <= k <= s.len(),
        forall|j: int| 0 <= j < k ==> !is_key_sep(s[j]),
        k == s.len() || is_key_sep(s[k]),
    ensures
        find_sep(s) == k,
    decreases k,
{
    if k > 0 {
        lemma_find_sep(s.skip(1), k - 1);
    }
}

/// The ASCII-lowercased form of one character; the configuration
/// keywords are matched case-insensitively this way.
pub open spec fn ascii_lower(c: char) -> char {
    if 'A' <= c && c <= 'Z' {
        ((c as u8) + 32) as char
    } else {
        c
    }
}

/// The ASCII-lowercased form of a sequence.
pub open spec fn ascii_lower_seq(s: Seq<char>) -> Seq<char> {
    s.map_values(|c: char| ascii_lower(c))
}

/// Lowercases the ASCII letters of `v`.
pub fn ascii_lower_vec(v: &Vec<char>) -> (r: Vec<char>)
    ensures
        r@ == ascii_lower_seq(v@),
{
    let mut r: Vec<char> = Vec::new();
    let mut i: usize = 0;
    while i < v.len()
        invariant
            0 <= i <= v@.len(),
            r@ == ascii_lower_seq(v@).take(i as int),
        decreases v@.len() - i,
    {
        let c = v[i];
        let lc = if c >= 'A' && c <= 'Z' {
            ((c as u8) + 32) as char
        } else {
            c
        };
        proof {
            assert(lc == ascii_lower(v@[i as int]));
        }
        r.push(lc);
        proof {
            assert(r@ =~= ascii_lower_seq(v@).take(i + 1));
        }
        i = i + 1;
    }
    proof {
        assert(ascii_lower_seq(v@).take(i as int) =~= ascii_lower_seq(v@));
    }
    r
}

/// How many leading characters of `s` are `c`.
pub open spec fn leading_count(s: Seq<char>, c: char) -> int
    decreases s.len(),
{
    if s.len() == 0 || s[0] != c {
        0
    } else {
        1 + leading_count(s.skip(1), c)
    }
}

pub proof fn lemma_leading_count(s: Seq<char>, c: char, k: int)
    requires
        0 <= k <= s.len(),
        forall|j: int| 0 <= j < k ==> s[j] == c,
        k == s.len() || s[k] != c,
    ensures
        leading_count(s, c) == k,
    decreases k,
{
    if k > 0 {
        lemma_leading_count(s.skip(1), c, k - 1);
    }
}

/// `s` with every leading and trailing `c` removed, as
/// `str::trim_matches` does with a character pattern.
pub open spec fn trim_char_spec(s: Seq<char>, c: char) -> Seq<char> {
    let lead = leading_count(s, c);
    if lead == s.len() {
        Seq::empty()
    } else {
        let tail = leading_count(s.reverse(), c);
        s.subrange(lead, s.len() - tail)
    }
}

/// Removes every leading and trailing occurrence of `c`.
pub fn trim_char(v: &Vec<char>, c: char) -> (r: Vec<char>)
    ensures
        r@ == trim_char_spec(v@, c),
{
    let ghost s = v@;
    let mut lo: usize = 0;
    while lo < v.len() && v[lo] == c
        invariant
            0 <= lo <= v.len(),
            s == v@,
            forall|j: int| 0 <= j < lo ==> s[j] == c,
        decreases v.len() - lo,
    {
        lo = lo + 1;
    }
    proof {
        lemma_leading_count(s, c, lo as int);
    }
    if lo == v.len() {
        let r: Vec<char> = Vec::new();
        assert(r@ =~= trim_char_spec(s, c));
        return r;
    }
    let mut hi: usize = v.len();
    while hi > lo && v[hi - 1] == c
        invariant
            lo <= hi <= v.len(),
            s == v@,
            forall|j: int| hi <= j < v.len() ==> s[j] == c,
            s[lo as int] != c,
        decreases hi,
    {
        hi = hi - 1;
    }
    proof {
        assert(forall|j: int|
            0 <= j < s.len() - hi ==> (#[trigger] s.reverse()[j]) == s[s.len() - 1 - j] && s[s.len()
                - 1 - j] == c);
        lemma_leading_count(s.reverse(), c, s.len() - hi);
    }
    let r = subvec(v, lo, hi);
    proof {
        assert(r@ =~= trim_char_spec(s, c));
    }
    r
}

/// How many leading characters of `s` are `'='`.
pub open spec fn leading_eq(s: Seq<char>) -> int
    decreases s.len(),
{
    if s.len() == 0 || s[0] != '=' {
        0
    } else {
        1 + leading_eq(s.skip(1))
    }
}

pub proof fn lemma_leading_eq(s: Seq<char>, k: int)
    requires
        0 <= k <= s.len(),
        forall|j: int| 0 <= j < k ==> s[j] == '=',
        k == s.len() || s[k] != '=',
    ensures
        leading_eq(s) == k,
    decreases k,
{
    if k > 0 {
        lemma_leading_eq(s.skip(1), k - 1);
    }
}

/// `s` with every leading and trailing `'='` removed, as
/// `str::trim_matches('=')` does.
pub open spec fn trim_eq_spec(s: Seq<char>) -> Seq<char> {
    let lead = leading_eq(s);
    if lead == s.len() {
        Seq::empty()
    } else {
        let tail = leading_eq(s.reverse());
        s.subrange(lead, s.len() - tail)
    }
}

/// Removes leading and trailing `'='` characters.
pub fn trim_eq(v: &Vec<char>) -> (r: Vec<char>)
    ensures
        r@ == trim_eq_spec(v@),
{
    let ghost s = v@;
    let mut lo: usize = 0;
    while lo < v.len() && v[lo] == '='
        invariant
            0 <= lo <= v.len(),
            s == v@,
            forall|j: int| 0 <= j < lo ==> s[j] == '=',
        decreases v.len() - lo,
    {
        lo = lo + 1;
    }
    proof {
        lemma_leading_eq(s, lo as int);
    }
    if lo == v.len() {
        let r: Vec<char> = Vec::new();
        assert(r@ =~= trim_eq_spec(s));
        return r;
    }
    let mut hi: usize = v.len();
    while hi > lo && v[hi - 1] == '='
        invariant
            lo <= hi <= v.len(),
            s == v@,
            forall|j: int| hi <= j < v.len() ==> s[j] == '=',
            s[lo as int] != '=',
        decreases hi,
    {
        hi = hi - 1;
    }
    proof {
        assert(forall|j: int|
            0 <= j < s.len() - hi ==> (#[trigger] s.reverse()[j]) == s[s.len() - 1 - j] && s[s.len()
                - 1 - j] == '=');
        lemma_leading_eq(s.reverse(), s.len() - hi);
    }
    let r = subvec(v, lo, hi);
    proof {
        assert(r@ =~= trim_eq_spec(s));
    }
    r
}

/// Appends a copy of `src` to `dst`.
pub fn append_chars(dst: &mut Vec<char>, src: &Vec<char>)
    ensures
        final(dst)@ == old(dst)@ + src@,
{
    let mut i: usize = 0;
    proof {
        assert(dst@ =~= old(dst)@ + src@.take(0));
    }
    while i < src.len()
        invariant
            0 <= i <= src@.len(),
            dst@ == old(dst)@ + src@.take(i as int),
        decreases src@.len() - i,
    {
        dst.push(src[i]);
        proof {
            assert(old(dst)@ + src@.take(i as int) + seq![src@[i as int]] =~= old(dst)@ + src@.take(
                i + 1,
            ));
        }
        i = i + 1;
    }
    proof {
        assert(old(dst)@ + src@.take(i as int) =~= old(dst)@ + src@);
    }
}

/// The characters of `v` in positions `[lo, hi)`.
pub fn subvec(v: &Vec<char>, lo: usize, hi: usize) -> (r: Vec<char>)
    requires
        lo <= hi <= v@.len(),
    ensures
        r@ == v@.subrange(lo as int, hi as int),
{
    let mut r: Vec<char> = Vec::new();
    let mut i: usize = lo;
    while i < hi
        invariant
            lo <= i <= hi <= v@.len(),
            r@ == v@.subrange(lo as int, i as int),
        decreases hi - i,
    {
        r.push(v[i]);
        assert(r@ =~= v@.subrange(lo as int, i + 1));
        i = i + 1;
    }
    r
}

/// The characters of a string slice as a vector.
pub fn chars_vec(s: &str) -> (r: Vec<char>)
    ensures
        r@ == s@,
{
    let mut r: Vec<char> = Vec::new();
    for c in it: s.chars()
        invariant
            r@.len() == it.index(),
            r@ == it.seq().take(it.index() as int),
    {
        r.push(c);
    }
    proof {
        assert(r@ =~= s@);
    }
    r
}

} // verus!
