//! Host filtering: a pattern without regex metacharacters filters by
//! case-insensitive substring over display name, connection target and
//! group; a pattern with metacharacters is tried as a case-insensitive
//! regular expression, and one that fails to compile silently falls back
//! to the substring path.

use vstd::prelude::*;

use crate::server::Server;
use crate::text::{chars_vec, contains_seq, lower_of, str_contains, to_lowercase};

verus! {

/// The characters that make a pattern a regular-expression candidate.
pub open spec fn is_meta(c: char) -> bool {
    c == '.' || c == '*' || c == '+' || c == '?' || c == '^' || c == '$' || c == '[' || c == ']'
        || c == '(' || c == ')' || c == '{' || c == '}' || c == '|' || c == '\\'
}

fn is_meta_exec(c: char) -> (r: bool)
    ensures
        r == is_meta(c),
{
    c == '.' || c == '*' || c == '+' || c == '?' || c == '^' || c == '$' || c == '[' || c == ']'
        || c == '(' || c == ')' || c == '{' || c == '}' || c == '|' || c == '\\'
}

/// The pattern holds at least one regex metacharacter.
pub open spec fn has_meta(pat: Seq<char>) -> bool {
    exists|i: int| 0 <= i < pat.len() && is_meta(#[trigger] pat[i])
}

/// Scans a pattern for regex metacharacters.
pub fn has_meta_chars(pat: &str) -> (r: bool)
    ensures
        r == has_meta(pat@),
{
    let v = chars_vec(pat);
    let mut i: usize = 0;
    while i < v.len()
        invariant
            0 <= i <= v@.len(),
            v@ == pat@,
            forall|j: int| 0 <= j < i ==> !is_meta(#[trigger] pat@[j]),
        decreases v.len() - i,
    {
        if is_meta_exec(v[i]) {
            proof {
                assert(is_meta(pat@[i as int]));
            }
            return true;
        }
        i = i + 1;
    }
    false
}

/// Whether `pat`, wrapped for case-insensitive matching, is accepted as a
/// regular expression; a function of the pattern alone.
pub uninterp spec fn regex_ci_valid(pat: Seq<char>) -> bool;

/// Whether the case-insensitive regular expression `pat` matches
/// somewhere in `text`; a function of the pattern and the text alone.
pub uninterp spec fn regex_ci_match(pat: Seq<char>, text: Seq<char>) -> bool;

/// Relies on `regex::Regex::new`: whether a pattern compiles depends on
/// the pattern alone. The `(?i)` prefix only sets case-insensitive
/// matching.
#[verifier::external_body]
fn regex_filter_compiles(pat: &str) -> (r: bool)
    ensures
        r == regex_ci_valid(pat@),
{
    let mut wrapped = String::from("(?i)");
    wrapped.push_str(pat);
    regex::Regex::new(&wrapped).is_ok()
}

/// Relies on `regex::Regex::new` and `regex::Regex::is_match`: whether a
/// compiled pattern matches a sub-slice of the text depends on the
/// pattern and the text alone.
#[verifier::external_body]
fn regex_filter_matches(pat: &str, text: &str) -> (r: bool)
    requires
        regex_ci_valid(pat@),
    ensures
        r == regex_ci_match(pat@, text@),
{
    let mut wrapped = String::from("(?i)");
    wrapped.push_str(pat);
    match regex::Regex::new(&wrapped) {
        Ok(re) => re.is_match(text),
        Err(_) => false,
    }
}

/// Case-insensitive substring match of the lowercased pattern against
/// name, target and group.
pub open spec fn substr_match(s: Server, pat_lower: Seq<char>) -> bool {
    ||| contains_seq(lower_of(s.host@), pat_lower)
    ||| contains_seq(lower_of(s.hostname@), pat_lower)
    ||| (s.group is Some && contains_seq(lower_of(s.group->0@), pat_lower))
}

/// Regular-expression match against name, target and group.
pub open spec fn regex_match(s: Server, pat: Seq<char>) -> bool {
    ||| regex_ci_match(pat, s.host@)
    ||| regex_ci_match(pat, s.hostname@)
    ||| (s.group is Some && regex_ci_match(pat, s.group->0@))
}

/// Whether a host passes a non-empty filter pattern: the regex path for a
/// valid pattern with metacharacters, the substring path otherwise —
/// including for a metacharacter pattern that does not compile.
pub open spec fn matches_filter(s: Server, pat: Seq<char>) -> bool {
    if has_meta(pat) && regex_ci_valid(pat) {
        regex_match(s, pat)
    } else {
        substr_match(s, lower_of(pat))
    }
}

/// An invalid pattern with metacharacters filters exactly as plain
/// substring matching does: the fallback is never "matches nothing".
pub proof fn lemma_invalid_regex_is_substring(s: Server, pat: Seq<char>)
    requires
        has_meta(pat),
        !regex_ci_valid(pat),
    ensures
        matches_filter(s, pat) == substr_match(s, lower_of(pat)),
{
}

/// A pattern without metacharacters filters exactly by case-insensitive
/// substring over display name, connection target and group.
pub proof fn lemma_plain_pattern_is_substring(s: Server, pat: Seq<char>)
    requires
        !has_meta(pat),
    ensures
        matches_filter(s, pat) == substr_match(s, lower_of(pat)),
{
}

fn server_matches_substr(s: &Server, needle: &str) -> (r: bool)
    ensures
        r == substr_match(*s, needle@),
{
    let hl = to_lowercase(s.host.as_str());
    if str_contains(hl.as_str(), needle) {
        return true;
    }
    let nl = to_lowercase(s.hostname.as_str());
    if str_contains(nl.as_str(), needle) {
        return true;
    }
    match &s.group {
        Some(g) => {
            let gl = to_lowercase(g.as_str());
            str_contains(gl.as_str(), needle)
        },
        None => false,
    }
}

fn server_matches_regex(s: &Server, pat: &str) -> (r: bool)
    requires
        regex_ci_valid(pat@),
    ensures
        r == regex_match(*s, pat@),
{
    if regex_filter_matches(pat, s.host.as_str()) {
        return true;
    }
    if regex_filter_matches(pat, s.hostname.as_str()) {
        return true;
    }
    match &s.group {
        Some(g) => regex_filter_matches(pat, g.as_str()),
        None => false,
    }
}

/// The filtered view of the host list: the indices of the hosts that
/// pass the pattern, ascending; an empty pattern passes every host.
pub open spec fn filtered_idx(servers: Seq<Server>, pat: Seq<char>) -> Seq<int>
    decreases servers.len(),
{
    if servers.len() == 0 {
        Seq::empty()
    } else {
        let pre = filtered_idx(servers.drop_last(), pat);
        if pat.len() == 0 || matches_filter(servers.last(), pat) {
            pre.push(servers.len() - 1)
        } else {
            pre
        }
    }
}

/// What the filtered view contains: exactly the indices of the hosts that
/// pass the pattern, in ascending order, and every host when the pattern
/// is empty.
pub proof fn lemma_filtered_idx_props(servers: Seq<Server>, pat: Seq<char>)
    ensures
        forall|k: int|
            0 <= k < filtered_idx(servers, pat).len() ==> 0 <= (#[trigger] filtered_idx(
                servers,
                pat,
            )[k]) < servers.len(),
        forall|k: int|
            0 <= k < filtered_idx(servers, pat).len() && pat.len() > 0 ==> matches_filter(
                servers[#[trigger] filtered_idx(servers, pat)[k]],
                pat,
            ),
        forall|i: int|
            0 <= i < servers.len() && (pat.len() == 0 || matches_filter(
                #[trigger] servers[i],
                pat,
            )) ==> filtered_idx(servers, pat).contains(i),
        forall|k1: int, k2: int|
            0 <= k1 < k2 < filtered_idx(servers, pat).len() ==> (#[trigger] filtered_idx(
                servers,
                pat,
            )[k1]) < (#[trigger] filtered_idx(servers, pat)[k2]),
        pat.len() == 0 ==> filtered_idx(servers, pat).len() == servers.len() && (forall|k: int|
            0 <= k < servers.len() ==> (#[trigger] filtered_idx(servers, pat)[k]) == k),
    decreases servers.len(),
{
    if servers.len() > 0 {
        let s0 = servers.drop_last();
        lemma_filtered_idx_props(s0, pat);
        let pre = filtered_idx(s0, pat);
        let f = filtered_idx(servers, pat);
        assert forall|i: int|
            0 <= i < servers.len() && (pat.len() == 0 || matches_filter(
                #[trigger] servers[i],
                pat,
            )) implies f.contains(i) by {
            if i < servers.len() - 1 {
                assert(s0[i] == servers[i]);
                assert(pre.contains(i));
                let k = choose|k: int| 0 <= k < pre.len() && pre[k] == i;
                assert(f[k] == i);
            } else {
                assert(f[f.len() - 1] == i);
            }
        }
    }
}

/// Substring-filter law: for any pattern without regex metacharacters,
/// the filtered view holds exactly the indices of the hosts whose display
/// name, connection target or group contains the lowercased pattern — in
/// ascending order, each exactly once.
pub proof fn lemma_plain_filter_exact(servers: Seq<Server>, pat: Seq<char>)
    requires
        pat.len() > 0,
        !has_meta(pat),
    ensures
        forall|k: int|
            0 <= k < filtered_idx(servers, pat).len() ==> substr_match(
                servers[#[trigger] filtered_idx(servers, pat)[k]],
                lower_of(pat),
            ),
        forall|i: int|
            0 <= i < servers.len() && substr_match(#[trigger] servers[i], lower_of(pat))
                ==> filtered_idx(servers, pat).contains(i),
        forall|k1: int, k2: int|
            0 <= k1 < k2 < filtered_idx(servers, pat).len() ==> (#[trigger] filtered_idx(
                servers,
                pat,
            )[k1]) < (#[trigger] filtered_idx(servers, pat)[k2]),
{
    lemma_filtered_idx_props(servers, pat);
}

/// Fallback law: a pattern with metacharacters that does not compile as a
/// regular expression yields exactly the plain substring-filter result —
/// never an error and never "matches nothing".
pub proof fn lemma_invalid_regex_filter_exact(servers: Seq<Server>, pat: Seq<char>)
    requires
        pat.len() > 0,
        has_meta(pat),
        !regex_ci_valid(pat),
    ensures
        forall|k: int|
            0 <= k < filtered_idx(servers, pat).len() ==> substr_match(
                servers[#[trigger] filtered_idx(servers, pat)[k]],
                lower_of(pat),
            ),
        forall|i: int|
            0 <= i < servers.len() && substr_match(#[trigger] servers[i], lower_of(pat))
                ==> filtered_idx(servers, pat).contains(i),
{
    lemma_filtered_idx_props(servers, pat);
}

/// The indices of the hosts that pass the filter, in ascending order; an
/// empty pattern passes every host.
pub fn filter_indices(servers: &Vec<Server>, pattern: &str) -> (r: Vec<usize>)
    ensures
        r@.map_values(|u: usize| u as int) == filtered_idx(servers@, pattern@),
{
    let ghost s = servers@;
    let ghost pat = pattern@;
    let mut r: Vec<usize> = Vec::new();
    let empty = pattern.is_empty();
    let meta = if empty {
        false
    } else {
        has_meta_chars(pattern)
    };
    let use_regex = if meta {
        regex_filter_compiles(pattern)
    } else {
        false
    };
    let needle = if !empty && !use_regex {
        to_lowercase(pattern)
    } else {
        String::new()
    };
    proof {
        assert(use_regex == (pat.len() > 0 && has_meta(pat) && regex_ci_valid(pat)));
        assert(s.take(0) =~= Seq::<Server>::empty());
        assert(r@.map_values(|u: usize| u as int) =~= filtered_idx(s.take(0), pat));
    }
    let mut i: usize = 0;
    while i < servers.len()
        invariant
            0 <= i <= s.len(),
            s == servers@,
            pat == pattern@,
            empty == (pat.len() == 0),
            use_regex == (pat.len() > 0 && has_meta(pat) && regex_ci_valid(pat)),
            !empty && !use_regex ==> needle@ == lower_of(pat),
            r@.map_values(|u: usize| u as int) == filtered_idx(s.take(i as int), pat),
        decreases s.len() - i,
    {
        let keep = if empty {
            true
        } else if use_regex {
            server_matches_regex(&servers[i], pattern)
        } else {
            server_matches_substr(&servers[i], needle.as_str())
        };
        proof {
            assert(keep == (pat.len() == 0 || matches_filter(s[i as int], pat)));
        }
        let ghost rpre = r@;
        if keep {
            r.push(i);
        }
        proof {
            let tpre = s.take(i as int);
            let tpost = s.take(i + 1);
            assert(tpost.drop_last() =~= tpre);
            assert(tpost.last() == s[i as int]);
            if keep {
                assert(r@.map_values(|u: usize| u as int) =~= rpre.map_values(
                    |u: usize| u as int,
                ).push(i as int));
                assert(filtered_idx(tpost, pat) == filtered_idx(tpre, pat).push(tpost.len() - 1));
            }
            assert(r@.map_values(|u: usize| u as int) =~= filtered_idx(tpost, pat));
        }
        i = i + 1;
    }
    proof {
        assert(s.take(i as int) =~= s);
    }
    r
}

} // verus!
