//! HTML cleanup for feed entry descriptions: decodes character entities,
//! strips markup tags, normalizes whitespace, and finds the first image
//! source in a fragment of markup.
use vstd::prelude::*;

use crate::textutil::{is_digit, is_digit_char, is_ws, is_ws_char, push_char, to_char_vec};
use crate::urls::digit_run;

verus! {

/// The first Unicode scalar values excluded from `char` and the last one
/// allowed: a numeric entity outside the scalar range is left undecoded.
pub open spec fn is_scalar_value(v: int) -> bool {
    (0 <= v < 0xD800) || (0xE000 <= v <= 0x10FFFF)
}

/// Value of the `d` digits of `s` starting at `i`.
pub open spec fn digits_value(s: Seq<char>, i: int, d: int) -> int
    decreases d,
{
    if d <= 0 {
        0
    } else {
        digits_value(s, i, d - 1) * 10 + (s[i + d - 1] as int - '0' as int)
    }
}

/// Length a numeric entity `&#<digits>;` occupies at position `i` (where
/// `s[i]` is the `&`), or 0 when there is none.
pub open spec fn numeric_entity_len(s: Seq<char>, i: int) -> int {
    if i + 1 < s.len() && s[i + 1] == '#' {
        let d = digit_run(s, i + 2);
        if d >= 1 && i + 2 + d < s.len() && s[i + 2 + d] == ';' {
            3 + d
        } else {
            0
        }
    } else {
        0
    }
}

/// Whether `p` occurs in `s` at position `i`.
pub open spec fn at_pos(s: Seq<char>, i: int, p: Seq<char>) -> bool {
    i >= 0 && i + p.len() <= s.len() && s.subrange(i, i + p.len()) == p
}

/// Length and replacement of a named entity at position `i`, `0` when none.
pub open spec fn named_entity_len(s: Seq<char>, i: int) -> int {
    if at_pos(s, i, "&lt;"@) || at_pos(s, i, "&gt;"@) {
        4
    } else if at_pos(s, i, "&amp;"@) {
        5
    } else if at_pos(s, i, "&quot;"@) || at_pos(s, i, "&apos;"@) || at_pos(s, i, "&nbsp;"@) {
        6
    } else {
        0
    }
}

pub open spec fn named_entity_char(s: Seq<char>, i: int) -> char {
    if at_pos(s, i, "&lt;"@) {
        '<'
    } else if at_pos(s, i, "&gt;"@) {
        '>'
    } else if at_pos(s, i, "&amp;"@) {
        '&'
    } else if at_pos(s, i, "&quot;"@) {
        '"'
    } else if at_pos(s, i, "&apos;"@) {
        '\''
    } else {
        ' '
    }
}

/// Entity decoding, from position `i` on: numeric references whose value is
/// a Unicode scalar become that character, the common named entities become
/// their characters, anything else is kept as it stands.
pub open spec fn decode_from(s: Seq<char>, i: int) -> Seq<char>
    decreases s.len() - i
        when 0 <= i
        via decode_decreases
{
    if i < 0 || i >= s.len() {
        Seq::empty()
    } else if s[i] == '&' {
        let nl = numeric_entity_len(s, i);
        let el = named_entity_len(s, i);
        if nl > 0 {
            let v = digits_value(s, i + 2, nl - 3);
            if is_scalar_value(v) {
                seq![((v as u32) as char)] + decode_from(s, i + nl)
            } else {
                s.subrange(i, i + nl) + decode_from(s, i + nl)
            }
        } else if el > 0 {
            seq![named_entity_char(s, i)] + decode_from(s, i + el)
        } else {
            seq!['&'] + decode_from(s, i + 1)
        }
    } else {
        seq![s[i]] + decode_from(s, i + 1)
    }
}

#[via_fn]
proof fn decode_decreases(s: Seq<char>, i: int) {
    reveal_strlit("&lt;");
    reveal_strlit("&gt;");
    reveal_strlit("&amp;");
    reveal_strlit("&quot;");
    reveal_strlit("&apos;");
    reveal_strlit("&nbsp;");
}

pub open spec fn decode_entities_spec(s: Seq<char>) -> Seq<char> {
    decode_from(s, 0)
}

/// Tag stripping: characters between `<` and `>` disappear along with the
/// angle brackets.
pub open spec fn strip_tags_from(s: Seq<char>, i: int, in_tag: bool) -> Seq<char>
    decreases s.len() - i,
{
    if i < 0 || i >= s.len() {
        Seq::empty()
    } else if s[i] == '<' {
        strip_tags_from(s, i + 1, true)
    } else if s[i] == '>' {
        strip_tags_from(s, i + 1, false)
    } else if in_tag {
        strip_tags_from(s, i + 1, in_tag)
    } else {
        seq![s[i]] + strip_tags_from(s, i + 1, in_tag)
    }
}

/// Length of the run of non-whitespace characters at `i`.
pub open spec fn word_run(s: Seq<char>, i: int) -> int
    decreases s.len() - i,
{
    if 0 <= i < s.len() && !is_ws_char(s[i]) {
        1 + word_run(s, i + 1)
    } else {
        0
    }
}

/// Whether any non-whitespace character occurs at or after `i`.
pub open spec fn has_word(s: Seq<char>, i: int) -> bool
    decreases s.len() - i,
{
    if i < 0 || i >= s.len() {
        false
    } else {
        !is_ws_char(s[i]) || has_word(s, i + 1)
    }
}

pub proof fn lemma_word_run_bound(s: Seq<char>, i: int)
    requires
        0 <= i <= s.len(),
    ensures
        0 <= word_run(s, i),
        i + word_run(s, i) <= s.len(),
        word_run(s, i) > 0 ==> !is_ws_char(s[i]),
        0 <= i < s.len() && !is_ws_char(s[i]) ==> word_run(s, i) > 0,
    decreases s.len() - i,
{
    if i < s.len() && !is_ws_char(s[i]) {
        lemma_word_run_bound(s, i + 1);
    }
}

/// Whitespace normalization: the words of `s`, joined by single spaces.
pub open spec fn norm_ws_from(s: Seq<char>, i: int) -> Seq<char>
    decreases s.len() - i, s.len() - i + 1
        when 0 <= i
        via norm_ws_decreases
{
    if i >= s.len() {
        Seq::empty()
    } else if is_ws_char(s[i]) {
        norm_ws_from(s, i + 1)
    } else {
        let w = word_run(s, i);
        s.subrange(i, i + w) + if has_word(s, i + w) {
            seq![' '] + norm_ws_from(s, i + w)
        } else {
            Seq::empty()
        }
    }
}

#[via_fn]
proof fn norm_ws_decreases(s: Seq<char>, i: int) {
    if 0 <= i < s.len() && !is_ws_char(s[i]) {
        lemma_word_run_bound(s, i);
    }
}

/// What cleaning a fragment of markup yields: entities decoded, tags
/// stripped, whitespace collapsed to single spaces with no outer padding.
pub open spec fn clean_html_spec(s: Seq<char>) -> Seq<char> {
    norm_ws_from(strip_tags_from(decode_entities_spec(s), 0, false), 0)
}

/// Relies on `char::from_u32`: `Some` exactly on Unicode scalar values, and
/// the returned character casts back to the given value.
#[verifier::external_body]
fn char_from_u32(v: u32) -> (r: Option<char>)
    ensures
        (r is Some) <==> is_scalar_value(v as int),
        r matches Some(c) ==> c as u32 == v,
{
    char::from_u32(v)
}

pub fn match_at_pub(v: &Vec<char>, i: usize, p: &str) -> (r: bool)
    requires
        i <= v@.len(),
    ensures
        r == at_pos(v@, i as int, p@),
{
    let pl = p.unicode_len();
    let n = v.len();
    if n - i < pl {
        return false;
    }
    let mut k: usize = 0;
    while k < pl
        invariant
            0 <= k <= pl,
            pl == p@.len(),
            n == v@.len(),
            i + pl <= n,
            forall|m: int| 0 <= m < k ==> v@[i + m] == p@[m],
        decreases pl - k,
    {
        if v[i + k] != p.get_char(k) {
            assert(v@.subrange(i as int, i + pl as int)[k as int] != p@[k as int]);
            return false;
        }
        k = k + 1;
    }
    assert(v@.subrange(i as int, i + p@.len() as int) =~= p@);
    true
}

fn digit_run_exec(v: &Vec<char>, i: usize) -> (n: usize)
    requires
        i <= v@.len(),
    ensures
        n == digit_run(v@, i as int),
        i + n <= v@.len(),
{
    let mut k: usize = i;
    while k < v.len() && is_digit(v[k])
        invariant
            i <= k <= v@.len(),
            digit_run(v@, i as int) == k - i + digit_run(v@, k as int),
        decreases v@.len() - k,
    {
        proof {
            assert(digit_run(v@, k as int) == 1 + digit_run(v@, k + 1));
        }
        k = k + 1;
    }
    proof {
        assert(digit_run(v@, k as int) == 0);
    }
    k - i
}

/// Value of `d` digits starting at `i`, saturated above the scalar range so
/// that overlong references read as invalid without overflowing.
fn digits_value_exec(v: &Vec<char>, i: usize, d: usize) -> (r: u32)
    requires
        i + d <= v@.len(),
        d == digit_run(v@, i as int) || d <= digit_run(v@, i as int),
        forall|m: int| i <= m < i + d ==> is_digit_char(#[trigger] v@[m]),
    ensures
        digits_value(v@, i as int, d as int) <= 0x10FFFF ==> r as int == digits_value(
            v@,
            i as int,
            d as int,
        ),
        digits_value(v@, i as int, d as int) > 0x10FFFF ==> r == 0x110000u32,
{
    let n = v.len();
    let mut k: usize = 0;
    let mut acc: u32 = 0;
    while k < d
        invariant
            0 <= k <= d,
            n == v@.len(),
            i + d <= n,
            forall|m: int| i <= m < i + d ==> is_digit_char(#[trigger] v@[m]),
            digits_value(v@, i as int, k as int) <= 0x10FFFF ==> acc as int == digits_value(
                v@,
                i as int,
                k as int,
            ),
            digits_value(v@, i as int, k as int) > 0x10FFFF ==> acc == 0x110000u32,
            acc <= 0x110000,
        decreases d - k,
    {
        let c = v[i + k];
        assert(is_digit_char(c));
        assert(c as u32 >= 48 && c as u32 <= 57);
        let dv: u32 = (c as u32) - 48;
        proof {
            assert(digits_value(v@, i as int, k + 1) == digits_value(v@, i as int, k as int) * 10
                + (v@[i + k as int] as int - '0' as int));
        }
        if acc > 0x10FFFF {
            acc = 0x110000;
            proof {
                assert(digits_value(v@, i as int, k as int) > 0x10FFFF);
                assert(digits_value(v@, i as int, k + 1) > 0x10FFFF) by {
                    assert(digits_value(v@, i as int, k as int) * 10 >= digits_value(
                        v@,
                        i as int,
                        k as int,
                    )) by (nonlinear_arith)
                        requires
                            digits_value(v@, i as int, k as int) > 0,
                    ;
                }
            }
        } else {
            acc = acc * 10 + dv;
            if acc > 0x10FFFF {
                acc = 0x110000;
            }
        }
        k = k + 1;
    }
    acc
}

/// Decodes HTML character entities: numeric references and the common
/// named entities become their characters.
pub fn decode_html_entities(html: &str) -> (r: String)
    ensures
        r@ == decode_entities_spec(html@),
{
    let v = to_char_vec(html);
    let n = v.len();
    let mut out = String::new();
    let mut i: usize = 0;
    proof {
        reveal_strlit("&lt;");
        reveal_strlit("&gt;");
        reveal_strlit("&amp;");
        reveal_strlit("&quot;");
        reveal_strlit("&apos;");
        reveal_strlit("&nbsp;");
    }
    while i < n
        invariant
            0 <= i <= n,
            n == v@.len(),
            v@ == html@,
            decode_from(v@, 0) == out@ + decode_from(v@, i as int),
        decreases n - i,
    {
        let ghost before = out@;
        proof {
            reveal_strlit("&lt;");
            reveal_strlit("&gt;");
            reveal_strlit("&amp;");
            reveal_strlit("&quot;");
            reveal_strlit("&apos;");
            reveal_strlit("&nbsp;");
        }
        if v[i] == '&' {
            let mut nl: usize = 0;
            if i + 1 < n && v[i + 1] == '#' {
                let d = digit_run_exec(&v, i + 2);
                if d >= 1 && i + 2 + d < n && v[i + 2 + d] == ';' {
                    nl = 3 + d;
                }
            }
            assert(nl == numeric_entity_len(v@, i as int));
            if nl > 0 {
                let d = nl - 3;
                proof {
                    lemma_digit_run_all_digits(v@, i + 2, d as int);
                }
                let val = digits_value_exec(&v, i + 2, d);
                match char_from_u32(val) {
                    Some(c) => {
                        assert(val <= 0x10FFFF);
                        assert(is_scalar_value(digits_value(v@, i + 2, d as int)));
                        push_char(&mut out, c);
                        proof {
                            vstd::utf8::char_u32_cast(c, val);
                            assert(out@ =~= before + seq![
                                ((digits_value(v@, i + 2, d as int) as u32) as char),
                            ]);
                        }
                    },
                    None => {
                        assert(!is_scalar_value(digits_value(v@, i + 2, d as int))) by {
                            if digits_value(v@, i + 2, d as int) > 0x10FFFF {
                            } else {
                                assert(val as int == digits_value(v@, i + 2, d as int));
                            }
                        }
                        let mut k: usize = i;
                        while k < i + nl
                            invariant
                                i <= k <= i + nl,
                                i + nl <= n,
                                n == v@.len(),
                                out@ == before + v@.subrange(i as int, k as int),
                            decreases i + nl - k,
                        {
                            push_char(&mut out, v[k]);
                            k = k + 1;
                            assert(out@ =~= before + v@.subrange(i as int, k as int));
                        }
                    },
                }
                i = i + nl;
                assert(decode_from(v@, 0) =~= out@ + decode_from(v@, i as int));
                continue ;
            }
            let is_lt = match_at_pub(&v, i, "&lt;");
            let is_gt = match_at_pub(&v, i, "&gt;");
            let is_amp = match_at_pub(&v, i, "&amp;");
            let is_quot = match_at_pub(&v, i, "&quot;");
            let is_apos = match_at_pub(&v, i, "&apos;");
            let is_nbsp = match_at_pub(&v, i, "&nbsp;");
            if is_lt {
                push_char(&mut out, '<');
                i = i + 4;
            } else if is_gt {
                push_char(&mut out, '>');
                i = i + 4;
            } else if is_amp {
                push_char(&mut out, '&');
                i = i + 5;
            } else if is_quot {
                push_char(&mut out, '"');
                i = i + 6;
            } else if is_apos {
                push_char(&mut out, '\'');
                i = i + 6;
            } else if is_nbsp {
                push_char(&mut out, ' ');
                i = i + 6;
            } else {
                push_char(&mut out, '&');
                i = i + 1;
            }
            assert(decode_from(v@, 0) =~= out@ + decode_from(v@, i as int));
        } else {
            push_char(&mut out, v[i]);
            i = i + 1;
            assert(decode_from(v@, 0) =~= out@ + decode_from(v@, i as int));
        }
    }
    proof {
        assert(decode_from(v@, n as int) =~= Seq::<char>::empty());
        assert(out@ =~= decode_from(v@, 0));
    }
    out
}

proof fn lemma_digit_run_all_digits(s: Seq<char>, i: int, d: int)
    requires
        0 <= i,
        0 <= d <= digit_run(s, i),
        i + digit_run(s, i) <= s.len(),
    ensures
        forall|m: int| i <= m < i + d ==> is_digit_char(#[trigger] s[m]),
    decreases d,
{
    if d > 0 {
        assert(is_digit_char(s[i]));
        assert(digit_run(s, i) == 1 + digit_run(s, i + 1));
        lemma_digit_run_all_digits(s, i + 1, d - 1);
    }
}

/// Removes markup tags and decodes entities, then collapses whitespace:
/// clean text suitable for display or storage.
pub fn clean_html(html: &str) -> (r: String)
    ensures
        r@ == clean_html_spec(html@),
{
    let decoded = decode_html_entities(html);
    let dv = to_char_vec(decoded.as_str());
    let n = dv.len();
    let mut stripped: Vec<char> = Vec::new();
    let mut in_tag = false;
    let mut i: usize = 0;
    while i < n
        invariant
            0 <= i <= n,
            n == dv@.len(),
            dv@ == decoded@,
            strip_tags_from(dv@, 0, false) == stripped@ + strip_tags_from(dv@, i as int, in_tag),
        decreases n - i,
    {
        let c = dv[i];
        if c == '<' {
            in_tag = true;
        } else if c == '>' {
            in_tag = false;
        } else if !in_tag {
            stripped.push(c);
        }
        i = i + 1;
        assert(strip_tags_from(dv@, 0, false) =~= stripped@ + strip_tags_from(
            dv@,
            i as int,
            in_tag,
        ));
    }
    proof {
        assert(strip_tags_from(dv@, n as int, in_tag) =~= Seq::<char>::empty());
        assert(stripped@ =~= strip_tags_from(dv@, 0, false));
    }
    let m = stripped.len();
    let mut out = String::new();
    let mut j: usize = 0;
    while j < m && is_ws(stripped[j])
        invariant
            0 <= j <= m,
            m == stripped@.len(),
            norm_ws_from(stripped@, 0) == norm_ws_from(stripped@, j as int),
        decreases m - j,
    {
        j = j + 1;
    }
    while j < m
        invariant
            0 <= j <= m,
            m == stripped@.len(),
            norm_ws_from(stripped@, 0) == out@ + norm_ws_from(stripped@, j as int),
            j < m ==> !is_ws_char(stripped@[j as int]),
        decreases m - j,
    {
        let ghost before = out@;
        let w = word_run_exec(&stripped, j);
        let ghost target = before + stripped@.subrange(j as int, j + w as int);
        let mut k: usize = j;
        while k < j + w
            invariant
                j <= k <= j + w,
                j + w <= m,
                m == stripped@.len(),
                out@ == before + stripped@.subrange(j as int, k as int),
            decreases j + w - k,
        {
            push_char(&mut out, stripped[k]);
            k = k + 1;
            assert(out@ =~= before + stripped@.subrange(j as int, k as int));
        }
        let mut p: usize = j + w;
        while p < m && is_ws(stripped[p])
            invariant
                j + w <= p <= m,
                m == stripped@.len(),
                out@ == target,
                has_word(stripped@, j + w as int) == has_word(stripped@, p as int),
                norm_ws_from(stripped@, j + w as int) == norm_ws_from(stripped@, p as int),
            decreases m - p,
        {
            p = p + 1;
        }
        if p < m {
            assert(has_word(stripped@, p as int));
            push_char(&mut out, ' ');
        } else {
            assert(!has_word(stripped@, p as int));
        }
        proof {
            assert(norm_ws_from(stripped@, 0) =~= out@ + norm_ws_from(stripped@, p as int));
        }
        j = p;
    }
    proof {
        assert(norm_ws_from(stripped@, m as int) =~= Seq::<char>::empty());
        assert(out@ =~= norm_ws_from(stripped@, 0));
    }
    out
}

pub fn word_run_exec(v: &Vec<char>, i: usize) -> (n: usize)
    requires
        i <= v@.len(),
    ensures
        n == word_run(v@, i as int),
        i + n <= v@.len(),
{
    let mut k: usize = i;
    while k < v.len() && !is_ws(v[k])
        invariant
            i <= k <= v@.len(),
            word_run(v@, i as int) == k - i + word_run(v@, k as int),
        decreases v@.len() - k,
    {
        proof {
            assert(word_run(v@, k as int) == 1 + word_run(v@, k + 1));
        }
        k = k + 1;
    }
    proof {
        assert(word_run(v@, k as int) == 0);
    }
    k - i
}

} // verus!

verus! {

/// A quote character delimiting an attribute value.
pub open spec fn is_quote_char(c: char) -> bool {
    c == '"' || c == '\''
}

/// First position at or after `i` where `p` occurs, -1 when none.
pub open spec fn find_pat_from(s: Seq<char>, i: int, p: Seq<char>) -> int
    decreases s.len() - i,
{
    if i < 0 || i >= s.len() || i + p.len() > s.len() {
        -1
    } else if at_pos(s, i, p) {
        i
    } else {
        find_pat_from(s, i + 1, p)
    }
}

/// First position at or after `i` holding character `c`, -1 when none.
pub open spec fn find_char_from(s: Seq<char>, i: int, c: char) -> int
    decreases s.len() - i,
{
    if i < 0 || i >= s.len() {
        -1
    } else if s[i] == c {
        i
    } else {
        find_char_from(s, i + 1, c)
    }
}

/// First position at or after `i` holding a quote character, -1 when none.
pub open spec fn find_quote_from(s: Seq<char>, i: int) -> int
    decreases s.len() - i,
{
    if i < 0 || i >= s.len() {
        -1
    } else if is_quote_char(s[i]) {
        i
    } else {
        find_quote_from(s, i + 1)
    }
}

/// Length of the whitespace run at `i`.
pub open spec fn ws_run(s: Seq<char>, i: int) -> int
    decreases s.len() - i,
{
    if 0 <= i < s.len() && is_ws_char(s[i]) {
        1 + ws_run(s, i + 1)
    } else {
        0
    }
}

/// The source URL of an image tag starting at `k` (at `<img`): a `src`
/// attribute before the tag's closing bracket, its quoted non-empty value,
/// and a closing bracket after it. `None` when the tag has no such shape.
pub open spec fn parse_img_at(s: Seq<char>, k: int) -> Option<Seq<char>> {
    let j = k + 4;
    let gt = find_char_from(s, j, '>');
    let sp = find_pat_from(s, j, "src"@);
    if sp < j + 1 || (0 <= gt && gt < sp) {
        None
    } else {
        let q = sp + 3;
        let eq = q + ws_run(s, q);
        if !(eq < s.len() && s[eq] == '=') {
            None
        } else {
            let qi = eq + 1 + ws_run(s, eq + 1);
            if !(qi < s.len() && is_quote_char(s[qi])) {
                None
            } else {
                let qc = find_quote_from(s, qi + 1);
                if qc <= qi + 1 {
                    None
                } else if find_char_from(s, qc + 1, '>') < 0 {
                    None
                } else {
                    Some(s.subrange(qi + 1, qc))
                }
            }
        }
    }
}

proof fn lemma_find_pat_bound(s: Seq<char>, i: int, p: Seq<char>)
    requires
        0 <= i,
    ensures
        find_pat_from(s, i, p) == -1 || (i <= find_pat_from(s, i, p) && find_pat_from(s, i, p)
            < s.len() && find_pat_from(s, i, p) + p.len() <= s.len()),
    decreases s.len() - i,
{
    if !(i >= s.len() || i + p.len() > s.len()) && !at_pos(s, i, p) {
        lemma_find_pat_bound(s, i + 1, p);
    }
}

/// The first image source in the markup from position `i` on: tried at each
/// image tag in turn until one parses.
pub open spec fn img_src_from(s: Seq<char>, i: int) -> Option<Seq<char>>
    decreases s.len() - i
        when 0 <= i
        via img_src_decreases
{
    let k = find_pat_from(s, i, "<img"@);
    if k < 0 {
        None
    } else if parse_img_at(s, k) is Some {
        parse_img_at(s, k)
    } else {
        img_src_from(s, k + 1)
    }
}

#[via_fn]
proof fn img_src_decreases(s: Seq<char>, i: int) {
    reveal_strlit("<img");
    lemma_find_pat_bound(s, i, "<img"@);
}

/// Whether an image URL is absolute enough to embed.
pub open spec fn absolute_url(u: Seq<char>) -> bool {
    at_pos(u, 0, "http://"@) || at_pos(u, 0, "https://"@) || at_pos(u, 0, "//"@)
}

/// What `find_first_image` yields: the first well-shaped image source of
/// the entity-decoded markup, if it is an absolute URL.
pub open spec fn find_first_image_spec(s: Seq<char>) -> Option<Seq<char>> {
    let d = decode_entities_spec(s);
    match img_src_from(d, 0) {
        None => None,
        Some(u) => if absolute_url(u) {
            Some(u)
        } else {
            None
        },
    }
}

fn find_pat_exec(v: &Vec<char>, i: usize, p: &str) -> (r: Option<usize>)
    requires
        i <= v@.len(),
    ensures
        match r {
            Some(k) => k as int == find_pat_from(v@, i as int, p@) && i <= k < v@.len() && k
                + p@.len() <= v@.len(),
            None => find_pat_from(v@, i as int, p@) == -1,
        },
{
    let n = v.len();
    let pl = p.unicode_len();
    let mut k: usize = i;
    loop
        invariant
            i <= k <= n,
            n == v@.len(),
            pl == p@.len(),
            find_pat_from(v@, i as int, p@) == find_pat_from(v@, k as int, p@),
        decreases n - k,
    {
        if k >= n || pl > n - k {
            return None;
        }
        if match_at_pub(v, k, p) {
            return Some(k);
        }
        k = k + 1;
    }
}

fn find_char_exec(v: &Vec<char>, i: usize, c: char) -> (r: Option<usize>)
    requires
        i <= v@.len(),
    ensures
        match r {
            Some(k) => k as int == find_char_from(v@, i as int, c) && i <= k < v@.len(),
            None => find_char_from(v@, i as int, c) == -1,
        },
{
    let n = v.len();
    let mut k: usize = i;
    while k < n
        invariant
            i <= k <= n,
            n == v@.len(),
            find_char_from(v@, i as int, c) == find_char_from(v@, k as int, c),
        decreases n - k,
    {
        if v[k] == c {
            return Some(k);
        }
        k = k + 1;
    }
    None
}

fn is_quote(c: char) -> (r: bool)
    ensures
        r == is_quote_char(c),
{
    c == '"' || c == '\''
}

fn find_quote_exec(v: &Vec<char>, i: usize) -> (r: Option<usize>)
    requires
        i <= v@.len(),
    ensures
        match r {
            Some(k) => k as int == find_quote_from(v@, i as int) && i <= k < v@.len(),
            None => find_quote_from(v@, i as int) == -1,
        },
{
    let n = v.len();
    let mut k: usize = i;
    while k < n
        invariant
            i <= k <= n,
            n == v@.len(),
            find_quote_from(v@, i as int) == find_quote_from(v@, k as int),
        decreases n - k,
    {
        if is_quote(v[k]) {
            return Some(k);
        }
        k = k + 1;
    }
    None
}

fn ws_run_exec(v: &Vec<char>, i: usize) -> (n: usize)
    requires
        i <= v@.len(),
    ensures
        n == ws_run(v@, i as int),
        i + n <= v@.len(),
{
    let mut k: usize = i;
    while k < v.len() && is_ws(v[k])
        invariant
            i <= k <= v@.len(),
            ws_run(v@, i as int) == k - i + ws_run(v@, k as int),
        decreases v@.len() - k,
    {
        proof {
            assert(ws_run(v@, k as int) == 1 + ws_run(v@, k + 1));
        }
        k = k + 1;
    }
    proof {
        assert(ws_run(v@, k as int) == 0);
    }
    k - i
}

fn parse_img_exec(v: &Vec<char>, k: usize) -> (r: Option<String>)
    requires
        k + 4 <= v@.len(),
    ensures
        match r {
            Some(u) => parse_img_at(v@, k as int) == Some(u@),
            None => parse_img_at(v@, k as int) is None,
        },
{
    proof {
        reveal_strlit("src");
    }
    let n = v.len();
    let j = k + 4;
    let gt = find_char_exec(v, j, '>');
    let sp = match find_pat_exec(v, j, "src") {
        Some(sp) => sp,
        None => {
            return None;
        },
    };
    if sp < j + 1 {
        return None;
    }
    match gt {
        Some(g) => {
            if g < sp {
                return None;
            }
        },
        None => {},
    }
    assert(sp + 3 <= n);
    let q = sp + 3;
    let w1 = ws_run_exec(v, q);
    let eq = q + w1;
    if !(eq < n && v[eq] == '=') {
        return None;
    }
    let w2 = ws_run_exec(v, eq + 1);
    let qi = eq + 1 + w2;
    if !(qi < n && is_quote(v[qi])) {
        return None;
    }
    let qc = match find_quote_exec(v, qi + 1) {
        Some(qc) => qc,
        None => {
            return None;
        },
    };
    if qc <= qi + 1 {
        return None;
    }
    if find_char_exec(v, qc + 1, '>').is_none() {
        return None;
    }
    let u = crate::textutil::chars_to_string(&v[qi + 1..qc]);
    assert(u@ == v@.subrange(qi + 1, qc as int));
    Some(u)
}

fn img_src_scan(v: &Vec<char>) -> (r: Option<String>)
    ensures
        match r {
            Some(u) => img_src_from(v@, 0) == Some(u@),
            None => img_src_from(v@, 0) is None,
        },
{
    proof {
        reveal_strlit("<img");
    }
    let n = v.len();
    let mut i: usize = 0;
    loop
        invariant
            0 <= i <= n,
            n == v@.len(),
            img_src_from(v@, 0) == img_src_from(v@, i as int),
        decreases n - i,
    {
        match find_pat_exec(v, i, "<img") {
            None => {
                return None;
            },
            Some(k) => {
                proof {
                    reveal_strlit("<img");
                }
                assert(k + 4 <= n);
                match parse_img_exec(v, k) {
                    Some(u) => {
                        return Some(u);
                    },
                    None => {
                        i = k + 1;
                    },
                }
            },
        }
    }
}

/// Locates the first image source URL within a fragment of markup: the
/// `src` of the first well-shaped image tag, kept only when absolute.
pub fn find_first_image(html: &str) -> (r: Option<String>)
    ensures
        match r {
            Some(u) => find_first_image_spec(html@) == Some(u@),
            None => find_first_image_spec(html@) is None,
        },
{
    proof {
        reveal_strlit("<img");
        reveal_strlit("http://");
        reveal_strlit("https://");
        reveal_strlit("//");
    }
    let decoded = decode_html_entities(html);
    let v = to_char_vec(decoded.as_str());
    let found = img_src_scan(&v);
    match found {
        Some(u) => {
            let uv = to_char_vec(u.as_str());
            let a = match_at_pub(&uv, 0, "http://");
            let b = match_at_pub(&uv, 0, "https://");
            let c = match_at_pub(&uv, 0, "//");
            if a || b || c {
                Some(u)
            } else {
                None
            }
        },
        None => None,
    }
}

} // verus!

verus! {

/// Case-sensitive containment test.
pub fn contains_pat(haystack: &str, needle: &str) -> (r: bool)
    ensures
        r == (find_pat_from(haystack@, 0, needle@) >= 0),
{
    let v = to_char_vec(haystack);
    match find_pat_exec(&v, 0, needle) {
        Some(_) => true,
        None => false,
    }
}

} // verus!
