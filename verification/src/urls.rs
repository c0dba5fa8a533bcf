//! URL canonicalization and extraction.
//!
//! A canonical URL is the dedup key of the whole system: lowercase, with the
//! `http://`/`https://` scheme, a leading `www.`/`ww<digits>.` host prefix,
//! surrounding whitespace and trailing slashes all stripped away.
//!
//! `extract_urls` scans free text for URLs: a scheme, an optional `www`
//! prefix and a multi-label host followed by permissive URL characters,
//! never ending in trailing punctuation. Links into the chat platform's own
//! message permalinks and into the wiki's own publishing endpoint are
//! excluded so that the bot's own reports never feed back into it.
use vstd::prelude::*;

use crate::textutil::{
    is_digit, is_digit_char, is_word, is_word_char, is_ws, is_ws_char, lower, lower_char,
    lower_seq,
};
use crate::textutil::{chars_to_string, to_char_vec};

verus! {

/// Characters a URL match may contain after its host.
pub open spec fn is_tail_char(c: char) -> bool {
    is_word_char(c) || c == '.' || c == ',' || c == '@' || c == '?' || c == '^' || c == '='
        || c == '%' || c == '&' || c == ':' || c == '/' || c == '~' || c == '+' || c == '#'
        || c == '-'
}

/// Characters a URL match may end in: trailing `.`, `,`, `:`, `/` and `#`
/// are trimmed off.
pub open spec fn is_final_char(c: char) -> bool {
    is_word_char(c) || c == '@' || c == '?' || c == '^' || c == '=' || c == '%' || c == '&'
        || c == '~' || c == '+' || c == '-'
}

/// Characters of a host label.
pub open spec fn is_host_char(c: char) -> bool {
    is_word_char(c) || c == '-'
}

} // verus!

verus! {

/// Length of a leading `https://` or `http://`, 0 when there is none.
pub open spec fn scheme_len(s: Seq<char>) -> int {
    if s.len() >= 8 && s[0] == 'h' && s[1] == 't' && s[2] == 't' && s[3] == 'p' && s[4] == 's'
        && s[5] == ':' && s[6] == '/' && s[7] == '/' {
        8
    } else if s.len() >= 7 && s[0] == 'h' && s[1] == 't' && s[2] == 't' && s[3] == 'p' && s[4]
        == ':' && s[5] == '/' && s[6] == '/' {
        7
    } else {
        0
    }
}

/// Number of consecutive decimal digits of `s` starting at `i`.
pub open spec fn digit_run(s: Seq<char>, i: int) -> int
    decreases s.len() - i,
{
    if 0 <= i < s.len() && is_digit_char(s[i]) {
        1 + digit_run(s, i + 1)
    } else {
        0
    }
}

/// Length of a leading `www.` or `ww<digits>.` host prefix, 0 when there is none.
pub open spec fn www_prefix_len(s: Seq<char>) -> int {
    if s.len() >= 4 && s[0] == 'w' && s[1] == 'w' {
        if s[2] == 'w' && s[3] == '.' {
            4
        } else {
            let d = digit_run(s, 2);
            if d >= 1 && 2 + d < s.len() && s[2 + d] == '.' {
                3 + d
            } else {
                0
            }
        }
    } else {
        0
    }
}

/// One canonicalization pass: repeatedly strips a leading scheme, a leading
/// `www` prefix, leading whitespace, and trailing whitespace or slashes,
/// until none of those applies.
pub open spec fn canonize(s: Seq<char>) -> Seq<char>
    decreases s.len(),
{
    if scheme_len(s) > 0 {
        canonize(s.skip(scheme_len(s)))
    } else if www_prefix_len(s) > 0 {
        canonize(s.skip(www_prefix_len(s)))
    } else if s.len() > 0 && is_ws_char(s[0]) {
        canonize(s.skip(1))
    } else if s.len() > 0 && (s.last() == '/' || is_ws_char(s.last())) {
        canonize(s.take(s.len() - 1))
    } else {
        s
    }
}

/// The canonical form of a URL string: its dedup key.
pub open spec fn clean_spec(s: Seq<char>) -> Seq<char> {
    canonize(lower_seq(s))
}

/// `s` is already canonical: cleaning it changes nothing.
pub open spec fn is_canonical(s: Seq<char>) -> bool {
    clean_spec(s) == s
}

proof fn lemma_digit_run_bound(s: Seq<char>, i: int)
    requires
        0 <= i <= s.len(),
    ensures
        i + digit_run(s, i) <= s.len(),
        digit_run(s, i) >= 0,
    decreases s.len() - i,
{
    if i < s.len() && is_digit_char(s[i]) {
        lemma_digit_run_bound(s, i + 1);
    }
}

proof fn lemma_www_prefix_len_bound(s: Seq<char>)
    ensures
        0 <= www_prefix_len(s) <= s.len(),
        www_prefix_len(s) != 0 ==> www_prefix_len(s) >= 3,
{
    if s.len() >= 4 && s[0] == 'w' && s[1] == 'w' && !(s[2] == 'w' && s[3] == '.') {
        lemma_digit_run_bound(s, 2);
    }
}

/// The canonicalization pass leaves a string with no lowercase-able
/// characters changed: it only drops characters.
proof fn lemma_canonize_lower_fixed(s: Seq<char>)
    requires
        lower_seq(s) == s,
    ensures
        lower_seq(canonize(s)) == canonize(s),
    decreases s.len(),
{
    lemma_www_prefix_len_bound(s);
    if scheme_len(s) > 0 {
        assert(lower_seq(s.skip(scheme_len(s))) =~= s.skip(scheme_len(s)));
        lemma_canonize_lower_fixed(s.skip(scheme_len(s)));
    } else if www_prefix_len(s) > 0 {
        assert(lower_seq(s.skip(www_prefix_len(s))) =~= s.skip(www_prefix_len(s)));
        lemma_canonize_lower_fixed(s.skip(www_prefix_len(s)));
    } else if s.len() > 0 && is_ws_char(s[0]) {
        assert(lower_seq(s.skip(1)) =~= s.skip(1));
        lemma_canonize_lower_fixed(s.skip(1));
    } else if s.len() > 0 && (s.last() == '/' || is_ws_char(s.last())) {
        assert(lower_seq(s.take(s.len() - 1)) =~= s.take(s.len() - 1));
        lemma_canonize_lower_fixed(s.take(s.len() - 1));
    }
}

/// `canonize` reaches a fixpoint: none of its stripping rules applies to its
/// own result.
proof fn lemma_canonize_fixpoint(s: Seq<char>)
    ensures
        canonize(canonize(s)) == canonize(s),
        scheme_len(canonize(s)) == 0,
        www_prefix_len(canonize(s)) == 0,
        canonize(s).len() > 0 ==> !is_ws_char(canonize(s)[0]),
        canonize(s).len() > 0 ==> canonize(s).last() != '/' && !is_ws_char(canonize(s).last()),
    decreases s.len(),
{
    lemma_www_prefix_len_bound(s);
    if scheme_len(s) > 0 {
        lemma_canonize_fixpoint(s.skip(scheme_len(s)));
    } else if www_prefix_len(s) > 0 {
        lemma_canonize_fixpoint(s.skip(www_prefix_len(s)));
    } else if s.len() > 0 && is_ws_char(s[0]) {
        lemma_canonize_fixpoint(s.skip(1));
    } else if s.len() > 0 && (s.last() == '/' || is_ws_char(s.last())) {
        lemma_canonize_fixpoint(s.take(s.len() - 1));
    }
}

/// Canonicalization is idempotent, so "same canonical form" is a true
/// equivalence relation on URL strings: `clean` maps every string into the
/// canonical representative of its class, and canonical strings are exactly
/// the fixpoints of `clean`.
pub proof fn lemma_clean_idempotent(s: Seq<char>)
    ensures
        clean_spec(clean_spec(s)) == clean_spec(s),
        is_canonical(clean_spec(s)),
{
    crate::textutil::lemma_lower_seq_idempotent(s);
    lemma_canonize_lower_fixed(lower_seq(s));
    lemma_canonize_fixpoint(lower_seq(s));
}

/// Two strings are equivalent when they share a canonical form. This is
/// reflexive, symmetric and transitive by construction, and stable under
/// re-cleaning either side.
pub open spec fn canon_equiv(a: Seq<char>, b: Seq<char>) -> bool {
    clean_spec(a) == clean_spec(b)
}

/// Cleaning either side of the equivalence does not change the relation.
pub proof fn lemma_canon_equiv_clean(a: Seq<char>)
    ensures
        canon_equiv(a, clean_spec(a)),
{
    lemma_clean_idempotent(a);
}

fn scheme_len_at(v: &Vec<char>, lo: usize, hi: usize) -> (n: usize)
    requires
        lo <= hi <= v@.len(),
    ensures
        n == scheme_len(v@.subrange(lo as int, hi as int)),
{
    let ghost s = v@.subrange(lo as int, hi as int);
    if hi - lo >= 8 && v[lo] == 'h' && v[lo + 1] == 't' && v[lo + 2] == 't' && v[lo + 3] == 'p'
        && v[lo + 4] == 's' && v[lo + 5] == ':' && v[lo + 6] == '/' && v[lo + 7] == '/' {
        8
    } else if hi - lo >= 7 && v[lo] == 'h' && v[lo + 1] == 't' && v[lo + 2] == 't' && v[lo + 3]
        == 'p' && v[lo + 4] == ':' && v[lo + 5] == '/' && v[lo + 6] == '/' {
        7
    } else {
        0
    }
}

fn digit_run_at(v: &Vec<char>, lo: usize, hi: usize, i: usize) -> (n: usize)
    requires
        lo <= hi <= v@.len(),
        lo <= i <= hi,
    ensures
        i - lo + n <= hi - lo,
        n == digit_run(v@.subrange(lo as int, hi as int), i - lo),
    decreases hi - i,
{
    let ghost s = v@.subrange(lo as int, hi as int);
    proof {
        if i - lo < s.len() {
            assert(s[i - lo] == v@[i as int]);
        }
    }
    if i < hi && is_digit(v[i]) {
        let rest = digit_run_at(v, lo, hi, i + 1);
        1 + rest
    } else {
        0
    }
}

fn www_prefix_len_at(v: &Vec<char>, lo: usize, hi: usize) -> (n: usize)
    requires
        lo <= hi <= v@.len(),
    ensures
        n == www_prefix_len(v@.subrange(lo as int, hi as int)),
        n <= hi - lo,
{
    let ghost s = v@.subrange(lo as int, hi as int);
    proof {
        lemma_www_prefix_len_bound(s);
    }
    if hi - lo >= 4 && v[lo] == 'w' && v[lo + 1] == 'w' {
        if v[lo + 2] == 'w' && v[lo + 3] == '.' {
            4
        } else {
            let d = digit_run_at(v, lo, hi, lo + 2);
            if d >= 1 && 2 + d < hi - lo && v[lo + 2 + d] == '.' {
                assert(s[2 + d as int] == v@[lo + 2 + d as int]);
                3 + d
            } else {
                0
            }
        }
    } else {
        0
    }
}

/// Canonicalizes one URL string: lowercases it, then strips schemes, `www`
/// prefixes, surrounding whitespace and trailing slashes.
pub fn clean_url(url: &str) -> (r: String)
    ensures
        r@ == clean_spec(url@),
{
    let chars = to_char_vec(url);
    let mut v: Vec<char> = Vec::new();
    let mut i: usize = 0;
    while i < chars.len()
        invariant
            i <= chars@.len(),
            v@ == lower_seq(chars@).take(i as int),
        decreases chars@.len() - i,
    {
        v.push(lower(chars[i]));
        i = i + 1;
        assert(v@ =~= lower_seq(chars@).take(i as int));
    }
    assert(v@ =~= lower_seq(chars@));
    assert(lower_seq(url@) == v@);

    let mut lo: usize = 0;
    let mut hi: usize = v.len();
    loop
        invariant
            lo <= hi <= v@.len(),
            canonize(v@.subrange(lo as int, hi as int)) == clean_spec(url@),
        ensures
            lo <= hi <= v@.len(),
            v@.subrange(lo as int, hi as int) == clean_spec(url@),
        decreases hi - lo,
    {
        let ghost s = v@.subrange(lo as int, hi as int);
        let sl = scheme_len_at(&v, lo, hi);
        if sl > 0 {
            proof {
                assert(s.skip(sl as int) =~= v@.subrange(lo + sl as int, hi as int));
            }
            lo = lo + sl;
            continue ;
        }
        let wl = www_prefix_len_at(&v, lo, hi);
        if wl > 0 {
            proof {
                assert(s.skip(wl as int) =~= v@.subrange(lo + wl as int, hi as int));
            }
            lo = lo + wl;
            continue ;
        }
        if lo < hi && is_ws(v[lo]) {
            proof {
                assert(s[0] == v@[lo as int]);
                assert(s.skip(1) =~= v@.subrange(lo + 1, hi as int));
            }
            lo = lo + 1;
            continue ;
        }
        if lo < hi && (v[hi - 1] == '/' || is_ws(v[hi - 1])) {
            proof {
                assert(s.last() == v@[hi - 1]);
                assert(s.take(s.len() - 1) =~= v@.subrange(lo as int, hi - 1));
            }
            hi = hi - 1;
            continue ;
        }
        proof {
            if lo < hi {
                assert(s[0] == v@[lo as int]);
                assert(s.last() == v@[hi - 1]);
            }
            assert(canonize(s) == s);
        }
        break ;
    }
    let out = chars_to_string(&v[lo..hi]);
    assert(out@ == v@.subrange(lo as int, hi as int));
    out
}

} // verus!

verus! {

/// Number of consecutive URL tail characters of `s` starting at `i`.
pub open spec fn tail_run(s: Seq<char>, i: int) -> int
    decreases s.len() - i,
{
    if 0 <= i < s.len() && is_tail_char(s[i]) {
        1 + tail_run(s, i + 1)
    } else {
        0
    }
}

/// Number of consecutive host-label characters of `s` starting at `i`.
pub open spec fn host_run(s: Seq<char>, i: int) -> int
    decreases s.len() - i,
{
    if 0 <= i < s.len() && is_host_char(s[i]) {
        1 + host_run(s, i + 1)
    } else {
        0
    }
}

/// End (exclusive) of the longest body in `[j, e0)` that ends in a final
/// character, or -1 when every character of the range is trimmable.
pub open spec fn body_end(s: Seq<char>, j: int, e: int) -> int
    decreases e,
{
    if e <= j || e <= 0 {
        -1
    } else if 0 <= e - 1 < s.len() && is_final_char(s[e - 1]) {
        e
    } else {
        body_end(s, j, e - 1)
    }
}

/// The body beginning at `j` starts with a multi-label host: a run of host
/// characters, a dot, and at least one more host character, all before `e`.
pub open spec fn host_ok(s: Seq<char>, j: int, e: int) -> bool {
    let r = host_run(s, j);
    r >= 1 && j + r + 1 < e && s[j + r] == '.' && is_host_char(s[j + r + 1])
}

/// End of a URL body starting at `j`: the greedy run of tail characters,
/// trimmed back to its last final character, valid only when it starts with
/// a multi-label host. -1 when there is no valid body.
pub open spec fn body_at(s: Seq<char>, j: int) -> int {
    let e = body_end(s, j, j + tail_run(s, j));
    if e >= 0 && host_ok(s, j, e) {
        e
    } else {
        -1
    }
}

/// End of a URL match starting at `i`: a scheme, an optional `www` prefix
/// (retried without it when the rest is no valid body), then a body.
/// -1 when no URL starts at `i`.
pub open spec fn match_end(s: Seq<char>, i: int) -> int {
    let sl = scheme_len(s.skip(i));
    if sl == 0 {
        -1
    } else {
        let p = i + sl;
        let w = www_prefix_len(s.skip(p));
        if w > 0 && body_at(s, p + w) >= 0 {
            body_at(s, p + w)
        } else {
            body_at(s, p)
        }
    }
}

pub proof fn lemma_tail_run_bound(s: Seq<char>, i: int)
    requires
        0 <= i <= s.len(),
    ensures
        0 <= tail_run(s, i),
        i + tail_run(s, i) <= s.len(),
    decreases s.len() - i,
{
    if i < s.len() && is_tail_char(s[i]) {
        lemma_tail_run_bound(s, i + 1);
    }
}

pub proof fn lemma_host_run_bound(s: Seq<char>, i: int)
    requires
        0 <= i <= s.len(),
    ensures
        0 <= host_run(s, i),
        i + host_run(s, i) <= s.len(),
    decreases s.len() - i,
{
    if i < s.len() && is_host_char(s[i]) {
        lemma_host_run_bound(s, i + 1);
    }
}

pub proof fn lemma_body_end_bound(s: Seq<char>, j: int, e: int)
    requires
        0 <= j,
    ensures
        body_end(s, j, e) == -1 || j < body_end(s, j, e) <= e,
    decreases e,
{
    if !(e <= j || e <= 0) && !(0 <= e - 1 < s.len() && is_final_char(s[e - 1])) {
        lemma_body_end_bound(s, j, e - 1);
    }
}

pub proof fn lemma_body_at_bound(s: Seq<char>, j: int)
    requires
        0 <= j <= s.len(),
    ensures
        body_at(s, j) == -1 || j < body_at(s, j) <= s.len(),
{
    lemma_tail_run_bound(s, j);
    lemma_body_end_bound(s, j, j + tail_run(s, j));
}

pub proof fn lemma_match_end_bound(s: Seq<char>, i: int)
    requires
        0 <= i <= s.len(),
    ensures
        match_end(s, i) == -1 || i < match_end(s, i) <= s.len(),
{
    let sl = scheme_len(s.skip(i));
    if sl != 0 {
        let p = i + sl;
        assert(s.skip(i).len() == s.len() - i);
        assert(p <= s.len());
        lemma_www_prefix_len_bound(s.skip(p));
        let w = www_prefix_len(s.skip(p));
        lemma_body_at_bound(s, p);
        if w > 0 {
            lemma_body_at_bound(s, p + w);
        }
    }
}

/// All URL matches of `s` from position `i` on: at each position either a
/// match begins (the scan resumes after it) or the scan moves on by one.
pub open spec fn scan(s: Seq<char>, i: int) -> Seq<Seq<char>>
    decreases s.len() - i
        when 0 <= i <= s.len()
        via scan_decreases
{
    if i >= s.len() {
        Seq::empty()
    } else {
        let e = match_end(s, i);
        if e >= 0 {
            seq![s.subrange(i, e)] + scan(s, e)
        } else {
            scan(s, i + 1)
        }
    }
}

#[via_fn]
proof fn scan_decreases(s: Seq<char>, i: int) {
    lemma_match_end_bound(s, i);
}

/// A canonical URL is excluded when its host is the chat platform's own
/// permalink domain or the wiki's own publishing domain.
pub open spec fn dom_excluded(c: Seq<char>, d: Seq<char>) -> bool {
    d.len() <= c.len() && c.take(d.len() as int) == d && (c.len() == d.len() || c[d.len() as int]
        == '/')
}

pub open spec fn excluded_spec(c: Seq<char>) -> bool {
    dom_excluded(c, "discord.com"@) || dom_excluded(c, "fmhy.net"@) || dom_excluded(
        c,
        "api.fmhy.net"@,
    )
}

/// The raw matches of a scan with the self-referential ones removed.
pub open spec fn keep_list(ms: Seq<Seq<char>>, n: int) -> Seq<Seq<char>>
    decreases n,
{
    if n <= 0 {
        Seq::empty()
    } else {
        let r = keep_list(ms, n - 1);
        if excluded_spec(clean_spec(ms[n - 1])) {
            r
        } else {
            r.push(ms[n - 1])
        }
    }
}

/// The canonical forms of the kept matches, first occurrence only.
pub open spec fn canon_list(ms: Seq<Seq<char>>, n: int) -> Seq<Seq<char>>
    decreases n,
{
    if n <= 0 {
        Seq::empty()
    } else {
        let r = canon_list(ms, n - 1);
        let c = clean_spec(ms[n - 1]);
        if excluded_spec(c) || r.contains(c) {
            r
        } else {
            r.push(c)
        }
    }
}

/// What `extract_urls(s, false)` returns when any URL was found.
pub open spec fn extract_raw_spec(s: Seq<char>) -> Seq<Seq<char>> {
    keep_list(scan(s, 0), scan(s, 0).len() as int)
}

/// What `extract_urls(s, true)` returns when any URL was found: the
/// deduplicated ordered canonical forms.
pub open spec fn extract_clean_spec(s: Seq<char>) -> Seq<Seq<char>> {
    canon_list(scan(s, 0), scan(s, 0).len() as int)
}

proof fn lemma_keep_list_push(ms: Seq<Seq<char>>, m: Seq<char>, n: int)
    requires
        0 <= n <= ms.len(),
    ensures
        keep_list(ms.push(m), n) == keep_list(ms, n),
    decreases n,
{
    if n > 0 {
        lemma_keep_list_push(ms, m, n - 1);
        assert(ms.push(m)[n - 1] == ms[n - 1]);
    }
}

proof fn lemma_canon_list_push(ms: Seq<Seq<char>>, m: Seq<char>, n: int)
    requires
        0 <= n <= ms.len(),
    ensures
        canon_list(ms.push(m), n) == canon_list(ms, n),
    decreases n,
{
    if n > 0 {
        lemma_canon_list_push(ms, m, n - 1);
        assert(ms.push(m)[n - 1] == ms[n - 1]);
    }
}

fn is_tail(c: char) -> (r: bool)
    ensures
        r == is_tail_char(c),
{
    is_word(c) || c == '.' || c == ',' || c == '@' || c == '?' || c == '^' || c == '=' || c == '%'
        || c == '&' || c == ':' || c == '/' || c == '~' || c == '+' || c == '#' || c == '-'
}

fn is_host(c: char) -> (r: bool)
    ensures
        r == is_host_char(c),
{
    is_word(c) || c == '-'
}

fn tail_run_at(v: &Vec<char>, i: usize) -> (n: usize)
    requires
        i <= v@.len(),
    ensures
        n == tail_run(v@, i as int),
        i + n <= v@.len(),
{
    let mut k: usize = i;
    while k < v.len() && is_tail(v[k])
        invariant
            i <= k <= v@.len(),
            tail_run(v@, i as int) == k - i + tail_run(v@, k as int),
        decreases v@.len() - k,
    {
        proof {
            assert(tail_run(v@, k as int) == 1 + tail_run(v@, k + 1));
        }
        k = k + 1;
    }
    proof {
        assert(tail_run(v@, k as int) == 0);
    }
    k - i
}

fn host_run_at(v: &Vec<char>, i: usize) -> (n: usize)
    requires
        i <= v@.len(),
    ensures
        n == host_run(v@, i as int),
        i + n <= v@.len(),
{
    let mut k: usize = i;
    while k < v.len() && is_host(v[k])
        invariant
            i <= k <= v@.len(),
            host_run(v@, i as int) == k - i + host_run(v@, k as int),
        decreases v@.len() - k,
    {
        proof {
            assert(host_run(v@, k as int) == 1 + host_run(v@, k + 1));
        }
        k = k + 1;
    }
    proof {
        assert(host_run(v@, k as int) == 0);
    }
    k - i
}

fn is_final(c: char) -> (r: bool)
    ensures
        r == is_final_char(c),
{
    is_word(c) || c == '@' || c == '?' || c == '^' || c == '=' || c == '%' || c == '&' || c == '~'
        || c == '+' || c == '-'
}

fn body_at_exec(v: &Vec<char>, j: usize) -> (r: Option<usize>)
    requires
        j <= v@.len(),
    ensures
        match r {
            Some(e) => e as int == body_at(v@, j as int) && j < e <= v@.len(),
            None => body_at(v@, j as int) == -1,
        },
{
    let n = v.len();
    let t = tail_run_at(v, j);
    assert(j + t <= n);
    let e0 = j + t;
    let mut e: usize = e0;
    while e > j && !is_final(v[e - 1])
        invariant
            j <= e <= e0 <= v@.len(),
            body_end(v@, j as int, e0 as int) == body_end(v@, j as int, e as int),
        decreases e,
    {
        e = e - 1;
    }
    proof {
        lemma_body_end_bound(v@, j as int, e0 as int);
    }
    if e == j {
        assert(body_end(v@, j as int, e as int) == -1);
        None
    } else {
        assert(body_end(v@, j as int, e as int) == e);
        let hr = host_run_at(v, j);
        if hr >= 1 && hr < e - j && e - j - hr >= 2 && v[j + hr] == '.' && is_host(v[j + hr + 1]) {
            assert(host_ok(v@, j as int, e as int));
            Some(e)
        } else {
            assert(!host_ok(v@, j as int, e as int));
            None
        }
    }
}

fn match_end_at(v: &Vec<char>, i: usize) -> (r: Option<usize>)
    requires
        i <= v@.len(),
    ensures
        match r {
            Some(e) => e as int == match_end(v@, i as int) && i < e <= v@.len(),
            None => match_end(v@, i as int) == -1,
        },
{
    let n = v.len();
    proof {
        assert(v@.subrange(i as int, n as int) =~= v@.skip(i as int));
    }
    let sl = scheme_len_at(v, i, n);
    if sl == 0 {
        return None;
    }
    let p = i + sl;
    proof {
        assert(v@.subrange(p as int, n as int) =~= v@.skip(p as int));
    }
    let w = www_prefix_len_at(v, p, n);
    if w > 0 {
        match body_at_exec(v, p + w) {
            Some(e) => Some(e),
            None => {
                match body_at_exec(v, p) {
                    Some(e) => Some(e),
                    None => None,
                }
            },
        }
    } else {
        match body_at_exec(v, p) {
            Some(e) => Some(e),
            None => None,
        }
    }
}

/// Whether canonical URL `c` sits under the excluded domain `d`.
fn dom_match(c: &str, d: &str) -> (r: bool)
    ensures
        r == dom_excluded(c@, d@),
{
    let dl = d.unicode_len();
    let cl = c.unicode_len();
    if cl < dl {
        return false;
    }
    let mut k: usize = 0;
    while k < dl
        invariant
            0 <= k <= dl,
            dl == d@.len() <= c@.len() == cl,
            forall|m: int| 0 <= m < k ==> c@[m] == d@[m],
        decreases dl - k,
    {
        if c.get_char(k) != d.get_char(k) {
            assert(c@.take(dl as int)[k as int] != d@[k as int]);
            return false;
        }
        k = k + 1;
    }
    assert(c@.take(dl as int) =~= d@);
    if cl == dl {
        true
    } else {
        c.get_char(dl) == '/'
    }
}

fn is_excluded(c: &str) -> (r: bool)
    ensures
        r == excluded_spec(c@),
{
    dom_match(c, "discord.com") || dom_match(c, "fmhy.net") || dom_match(c, "api.fmhy.net")
}

fn vec_contains_str(out: &Vec<String>, c: &String) -> (r: bool)
    ensures
        r == out.deep_view().contains(c@),
{
    let mut k: usize = 0;
    while k < out.len()
        invariant
            0 <= k <= out@.len(),
            forall|m: int| 0 <= m < k ==> out.deep_view()[m] != c@,
        decreases out@.len() - k,
    {
        if out[k].eq(c) {
            assert(out.deep_view()[k as int] == c@);
            return true;
        }
        k = k + 1;
    }
    false
}

/// Scans free text for URLs.
///
/// Returns `None` when no URL occurs in the text at all. Otherwise returns
/// the matches with self-referential links removed: raw match text in match
/// order when `clean` is false, and the deduplicated ordered list of
/// canonical forms when `clean` is true.
pub fn extract_urls(haystack: &str, clean: bool) -> (r: Option<Vec<String>>)
    ensures
        (r is None) <==> scan(haystack@, 0).len() == 0,
        clean ==> (r matches Some(v) ==> v.deep_view() == extract_clean_spec(haystack@)),
        !clean ==> (r matches Some(v) ==> v.deep_view() == extract_raw_spec(haystack@)),
{
    let v = to_char_vec(haystack);
    let n = v.len();
    let mut i: usize = 0;
    let mut out: Vec<String> = Vec::new();
    let mut any = false;
    let ghost mut found: Seq<Seq<char>> = Seq::empty();
    while i < n
        invariant
            0 <= i <= n,
            n == v@.len(),
            v@ == haystack@,
            scan(v@, 0) == found + scan(v@, i as int),
            any <==> found.len() > 0,
            !clean ==> out.deep_view() == keep_list(found, found.len() as int),
            clean ==> out.deep_view() == canon_list(found, found.len() as int),
        decreases n - i,
    {
        match match_end_at(&v, i) {
            Some(e) => {
                proof {
                    assert(scan(v@, i as int) == seq![v@.subrange(i as int, e as int)] + scan(
                        v@,
                        e as int,
                    ));
                }
                let raw = chars_to_string(&v[i..e]);
                assert(raw@ == v@.subrange(i as int, e as int));
                let cleaned = clean_url(raw.as_str());
                let excl = is_excluded(cleaned.as_str());
                proof {
                    lemma_keep_list_push(found, raw@, found.len() as int);
                    lemma_canon_list_push(found, raw@, found.len() as int);
                    found = found.push(raw@);
                    assert(scan(v@, 0) =~= found + scan(v@, e as int));
                }
                if clean {
                    if !excl && !vec_contains_str(&out, &cleaned) {
                        out.push(cleaned);
                        assert(out.deep_view() =~= canon_list(found, found.len() as int));
                    } else {
                        assert(out.deep_view() =~= canon_list(found, found.len() as int));
                    }
                } else {
                    if !excl {
                        out.push(raw);
                        assert(out.deep_view() =~= keep_list(found, found.len() as int));
                    } else {
                        assert(out.deep_view() =~= keep_list(found, found.len() as int));
                    }
                }
                any = true;
                i = e;
            },
            None => {
                proof {
                    assert(scan(v@, i as int) == scan(v@, i + 1));
                    assert(scan(v@, 0) =~= found + scan(v@, i + 1));
                }
                i = i + 1;
            },
        }
    }
    proof {
        assert(scan(v@, n as int) =~= Seq::<Seq<char>>::empty());
        assert(scan(v@, 0) =~= found);
    }
    if any {
        Some(out)
    } else {
        None
    }
}

} // verus!

verus! {

/// A string that is one whole well-formed URL: a URL match covers exactly
/// all of it, and it is not a self-referential link.
pub open spec fn well_formed_url(u: Seq<char>) -> bool {
    u.len() > 0 && match_end(u, 0) == u.len() && !excluded_spec(clean_spec(u))
}

proof fn lemma_tail_run_shift(a: Seq<char>, b: Seq<char>, j: int)
    requires
        0 <= j <= b.len(),
    ensures
        tail_run(a + b, a.len() + j) == tail_run(b, j),
    decreases b.len() - j,
{
    if j < b.len() {
        assert((a + b)[a.len() + j] == b[j]);
        if is_tail_char(b[j]) {
            lemma_tail_run_shift(a, b, j + 1);
        }
    }
}

proof fn lemma_host_run_shift(a: Seq<char>, b: Seq<char>, j: int)
    requires
        0 <= j <= b.len(),
    ensures
        host_run(a + b, a.len() + j) == host_run(b, j),
    decreases b.len() - j,
{
    if j < b.len() {
        assert((a + b)[a.len() + j] == b[j]);
        if is_host_char(b[j]) {
            lemma_host_run_shift(a, b, j + 1);
        }
    }
}

proof fn lemma_body_end_shift(a: Seq<char>, b: Seq<char>, j: int, e: int)
    requires
        0 <= j <= e,
    ensures
        body_end(b, j, e) == -1 ==> body_end(a + b, a.len() + j, a.len() + e) == -1,
        body_end(b, j, e) >= 0 ==> body_end(a + b, a.len() + j, a.len() + e) == a.len()
            + body_end(b, j, e),
    decreases e,
{
    if e <= j || e <= 0 {
    } else {
        if 0 <= e - 1 < b.len() {
            assert((a + b)[a.len() + e - 1] == b[e - 1]);
        }
        if !(0 <= e - 1 < b.len() && is_final_char(b[e - 1])) {
            lemma_body_end_shift(a, b, j, e - 1);
            if e - 1 >= b.len() {
                assert(a.len() + e - 1 >= (a + b).len());
            }
        }
    }
}

proof fn lemma_body_at_shift(a: Seq<char>, b: Seq<char>, j: int)
    requires
        0 <= j <= b.len(),
    ensures
        body_at(b, j) == -1 ==> body_at(a + b, a.len() + j) == -1,
        body_at(b, j) >= 0 ==> body_at(a + b, a.len() + j) == a.len() + body_at(b, j),
{
    lemma_tail_run_shift(a, b, j);
    lemma_tail_run_bound(b, j);
    lemma_body_end_shift(a, b, j, j + tail_run(b, j));
    lemma_body_end_bound(b, j, j + tail_run(b, j));
    let e = body_end(b, j, j + tail_run(b, j));
    if e >= 0 {
        lemma_host_run_shift(a, b, j);
        lemma_host_run_bound(b, j);
        let r = host_run(b, j);
        if r >= 1 && j + r + 1 < e {
            assert((a + b)[a.len() + j + r] == b[j + r]);
            assert((a + b)[a.len() + j + r + 1] == b[j + r + 1]);
        }
        assert(host_ok(a + b, a.len() + j, a.len() + e) == host_ok(b, j, e));
    }
}

proof fn lemma_match_end_shift(a: Seq<char>, b: Seq<char>, k: int)
    requires
        0 <= k <= b.len(),
    ensures
        match_end(b, k) == -1 ==> match_end(a + b, a.len() + k) == -1,
        match_end(b, k) >= 0 ==> match_end(a + b, a.len() + k) == a.len() + match_end(b, k),
{
    assert((a + b).skip(a.len() + k) =~= b.skip(k));
    let sl = scheme_len(b.skip(k));
    if sl != 0 {
        assert(b.skip(k).len() == b.len() - k);
        assert(k + sl <= b.len());
        assert((a + b).skip(a.len() + k + sl) =~= b.skip(k + sl));
        lemma_www_prefix_len_bound(b.skip(k + sl));
        let w = www_prefix_len(b.skip(k + sl));
        lemma_body_at_shift(a, b, k + sl);
        if w > 0 {
            lemma_body_at_shift(a, b, k + sl + w);
        }
    }
}

proof fn lemma_scan_shift(a: Seq<char>, b: Seq<char>, k: int)
    requires
        0 <= k <= b.len(),
    ensures
        scan(a + b, a.len() + k) == scan(b, k),
    decreases b.len() - k,
{
    if k >= b.len() {
        assert(scan(a + b, a.len() + k) =~= scan(b, k));
    } else {
        lemma_match_end_shift(a, b, k);
        lemma_match_end_bound(b, k);
        let e = match_end(b, k);
        if e >= 0 {
            lemma_scan_shift(a, b, e);
            assert((a + b).subrange(a.len() + k, a.len() + e) =~= b.subrange(k, e));
            assert(scan(a + b, a.len() + k) =~= scan(b, k));
        } else {
            lemma_scan_shift(a, b, k + 1);
            assert(scan(a + b, a.len() + k) =~= scan(b, k));
        }
    }
}

proof fn lemma_digit_run_append(a: Seq<char>, b: Seq<char>, i: int)
    requires
        0 <= i <= a.len(),
        b.len() > 0,
        !is_digit_char(b[0]),
    ensures
        digit_run(a + b, i) == digit_run(a, i),
    decreases a.len() - i,
{
    if i < a.len() {
        assert((a + b)[i] == a[i]);
        if is_digit_char(a[i]) {
            lemma_digit_run_append(a, b, i + 1);
        }
    } else {
        assert((a + b)[i] == b[0]);
    }
}

proof fn lemma_tail_run_append(a: Seq<char>, b: Seq<char>, i: int)
    requires
        0 <= i <= a.len(),
        b.len() > 0,
        !is_tail_char(b[0]),
    ensures
        tail_run(a + b, i) == tail_run(a, i),
    decreases a.len() - i,
{
    if i < a.len() {
        assert((a + b)[i] == a[i]);
        if is_tail_char(a[i]) {
            lemma_tail_run_append(a, b, i + 1);
        }
    } else {
        assert((a + b)[i] == b[0]);
    }
}

proof fn lemma_host_run_append(a: Seq<char>, b: Seq<char>, i: int)
    requires
        0 <= i <= a.len(),
        b.len() > 0,
        !is_host_char(b[0]),
    ensures
        host_run(a + b, i) == host_run(a, i),
    decreases a.len() - i,
{
    if i < a.len() {
        assert((a + b)[i] == a[i]);
        if is_host_char(a[i]) {
            lemma_host_run_append(a, b, i + 1);
        }
    } else {
        assert((a + b)[i] == b[0]);
    }
}

proof fn lemma_body_end_append(a: Seq<char>, b: Seq<char>, j: int, e: int)
    requires
        0 <= j,
        e <= a.len(),
    ensures
        body_end(a + b, j, e) == body_end(a, j, e),
    decreases e,
{
    if !(e <= j || e <= 0) {
        assert((a + b)[e - 1] == a[e - 1]);
        if !(is_final_char(a[e - 1])) {
            lemma_body_end_append(a, b, j, e - 1);
        }
    }
}

proof fn lemma_body_at_append(a: Seq<char>, b: Seq<char>, j: int)
    requires
        0 <= j <= a.len(),
        b.len() > 0,
        b[0] == '\n',
    ensures
        body_at(a + b, j) == body_at(a, j),
{
    lemma_tail_run_append(a, b, j);
    lemma_tail_run_bound(a, j);
    lemma_body_end_append(a, b, j, j + tail_run(a, j));
    lemma_body_end_bound(a, j, j + tail_run(a, j));
    let e = body_end(a, j, j + tail_run(a, j));
    if e >= 0 {
        lemma_host_run_append(a, b, j);
        lemma_host_run_bound(a, j);
        let r = host_run(a, j);
        if r >= 1 && j + r + 1 < e {
            assert((a + b)[j + r] == a[j + r]);
            assert((a + b)[j + r + 1] == a[j + r + 1]);
        }
        assert(host_ok(a + b, j, e) == host_ok(a, j, e));
    }
}

proof fn lemma_scheme_len_append(a: Seq<char>, b: Seq<char>)
    requires
        scheme_len(a) > 0,
    ensures
        scheme_len(a + b) == scheme_len(a),
{
    assert forall|m: int| 0 <= m < a.len() implies (a + b)[m] == a[m] by {}
}

proof fn lemma_www_prefix_append(x: Seq<char>, b: Seq<char>)
    requires
        b.len() > 0,
        b[0] == '\n',
    ensures
        www_prefix_len(x + b) == www_prefix_len(x),
{
    let s = x + b;
    assert forall|m: int| 0 <= m < x.len() implies s[m] == x[m] by {}
    assert(s[x.len() as int] == b[0]);
    if x.len() >= 4 && x[0] == 'w' && x[1] == 'w' {
        if x[2] == 'w' && x[3] == '.' {
        } else {
            lemma_digit_run_append(x, b, 2);
            lemma_digit_run_bound(x, 2);
            let d = digit_run(x, 2);
            if d >= 1 {
                if 2 + d < x.len() {
                } else {
                    assert(s[2 + d] == '\n');
                }
            }
        }
    } else {
        if s.len() >= 4 && s[0] == 'w' && s[1] == 'w' {
            assert(x.len() < 4);
            assert(x.len() >= 2);
            if x.len() == 2 {
                assert(s[2] == b[0]);
                assert(digit_run(s, 2) == 0);
            } else {
                assert(x.len() == 3);
                assert(s[3] == b[0]);
                if s[2] == 'w' && s[3] == '.' {
                    assert(false);
                }
                lemma_digit_run_append(x, b, 2);
                lemma_digit_run_bound(x, 2);
                let d = digit_run(s, 2);
                assert(d == digit_run(x, 2));
                if d >= 1 && 2 + d < s.len() && s[2 + d] == '.' {
                    assert(2 + d <= x.len());
                    assert(2 + d == 3);
                    assert(s[3] == '\n');
                    assert(false);
                }
            }
        }
    }
}

proof fn lemma_match_end_append(u: Seq<char>, t: Seq<char>)
    requires
        u.len() > 0,
        match_end(u, 0) == u.len(),
        t.len() > 0,
        t[0] == '\n',
    ensures
        match_end(u + t, 0) == u.len(),
{
    let s = u + t;
    assert(u.skip(0) =~= u);
    assert(s.skip(0) =~= s);
    let sl = scheme_len(u);
    assert(sl > 0);
    lemma_scheme_len_append(u, t);
    assert(scheme_len(s) == sl);
    assert(sl <= u.len());
    assert(s.skip(sl) =~= u.skip(sl) + t);
    lemma_www_prefix_append(u.skip(sl), t);
    let w = www_prefix_len(u.skip(sl));
    assert(www_prefix_len(s.skip(sl)) == w);
    lemma_www_prefix_len_bound(u.skip(sl));
    lemma_body_at_append(u, t, sl);
    if w > 0 {
        lemma_body_at_append(u, t, sl + w);
    }
}

proof fn lemma_join_lines_front(us: Seq<Seq<char>>)
    requires
        us.len() > 0,
    ensures
        crate::format::join_lines(us) == us[0] + (seq!['\n'] + crate::format::join_lines(
            us.drop_first(),
        )),
    decreases us.len(),
{
    if us.len() == 1 {
        assert(us.drop_last() =~= Seq::<Seq<char>>::empty());
        assert(us.drop_first() =~= Seq::<Seq<char>>::empty());
        assert(crate::format::join_lines(us) =~= us[0] + (seq!['\n'] + crate::format::join_lines(
            us.drop_first(),
        )));
    } else {
        let dl = us.drop_last();
        lemma_join_lines_front(dl);
        assert(dl[0] == us[0]);
        assert(dl.drop_first() =~= us.drop_first().drop_last());
        assert(us.drop_first().last() == us.last());
        assert(us.drop_first().len() > 0);
        assert(crate::format::join_lines(us.drop_first()) == crate::format::join_lines(
            us.drop_first().drop_last(),
        ) + us.drop_first().last() + seq!['\n']);
        assert(crate::format::join_lines(us) =~= us[0] + (seq!['\n'] + crate::format::join_lines(
            us.drop_first(),
        )));
    }
}

/// Idempotent re-extraction: a list of well-formed URLs rendered one per
/// line scans back to exactly that list, so re-extraction yields their
/// deduplicated canonical forms and nothing else.
#[verifier::rlimit(100)]
pub proof fn lemma_extract_round_trip(us: Seq<Seq<char>>)
    requires
        forall|i: int| 0 <= i < us.len() ==> well_formed_url(#[trigger] us[i]),
    ensures
        scan(crate::format::join_lines(us), 0) == us,
        extract_clean_spec(crate::format::join_lines(us)) == canon_list(us, us.len() as int),
    decreases us.len(),
{
    let j = crate::format::join_lines(us);
    if us.len() == 0 {
        assert(j =~= Seq::<char>::empty());
        assert(scan(j, 0) =~= us);
    } else {
        let u = us[0];
        let rest = us.drop_first();
        lemma_join_lines_front(us);
        let t = seq!['\n'] + crate::format::join_lines(rest);
        assert(j == u + t);
        assert(t[0] == '\n');
        assert(well_formed_url(u));
        lemma_match_end_append(u, t);
        assert(match_end(j, 0) == u.len());
        assert(scan(j, 0) == seq![j.subrange(0, u.len() as int)] + scan(j, u.len() as int));
        assert(j.subrange(0, u.len() as int) =~= u);
        assert(j.skip(u.len() as int) =~= t);
        assert(scheme_len(t) == 0);
        assert(match_end(j, u.len() as int) == -1);
        assert(scan(j, u.len() as int) == scan(j, u.len() as int + 1));
        let a = u + seq!['\n'];
        assert(j =~= a + crate::format::join_lines(rest));
        assert forall|i: int| 0 <= i < rest.len() implies well_formed_url(#[trigger] rest[i]) by {
            assert(rest[i] == us[i + 1]);
        }
        lemma_extract_round_trip(rest);
        lemma_scan_shift(a, crate::format::join_lines(rest), 0);
        assert(scan(j, u.len() as int + 1) == scan(crate::format::join_lines(rest), 0));
        assert(scan(j, 0) =~= us);
    }
    lemma_canon_scan(us, scan(j, 0));
}

proof fn lemma_canon_scan(us: Seq<Seq<char>>, sc: Seq<Seq<char>>)
    requires
        sc == us,
    ensures
        canon_list(sc, sc.len() as int) == canon_list(us, us.len() as int),
{
}

} // verus!

verus! {

/// "Same canonical form" really is an equivalence relation: reflexive,
/// symmetric and transitive, and every class contains exactly one canonical
/// representative, `clean_spec` of any member.
pub proof fn lemma_canon_equiv_relation(a: Seq<char>, b: Seq<char>, c: Seq<char>)
    ensures
        canon_equiv(a, a),
        canon_equiv(a, b) ==> canon_equiv(b, a),
        canon_equiv(a, b) && canon_equiv(b, c) ==> canon_equiv(a, c),
        canon_equiv(a, b) <==> clean_spec(a) == clean_spec(b),
{
}

} // verus!
