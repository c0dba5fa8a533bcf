//! Word counting for the word cloud, and uptime arithmetic.
use vstd::prelude::*;

use crate::textutil::{is_word, is_word_char, to_char_vec};

verus! {

/// Length of the run of word characters at `i`.
pub open spec fn wtoken_run(s: Seq<char>, i: int) -> int
    decreases s.len() - i,
{
    if 0 <= i < s.len() && is_word_char(s[i]) {
        1 + wtoken_run(s, i + 1)
    } else {
        0
    }
}

proof fn lemma_wtoken_run_bound(s: Seq<char>, i: int)
    requires
        0 <= i <= s.len(),
    ensures
        0 <= wtoken_run(s, i),
        i + wtoken_run(s, i) <= s.len(),
        0 <= i < s.len() && is_word_char(s[i]) ==> wtoken_run(s, i) > 0,
    decreases s.len() - i,
{
    if i < s.len() && is_word_char(s[i]) {
        lemma_wtoken_run_bound(s, i + 1);
    }
}

/// The word tokens of `s` from position `i` on: maximal runs of word
/// characters.
pub open spec fn wtokens_of(s: Seq<char>, i: int) -> Seq<Seq<char>>
    decreases s.len() - i, s.len() - i + 1
        when 0 <= i
        via wtokens_of_decreases
{
    if i >= s.len() {
        Seq::empty()
    } else if !is_word_char(s[i]) {
        wtokens_of(s, i + 1)
    } else {
        let w = wtoken_run(s, i);
        seq![s.subrange(i, i + w)] + wtokens_of(s, i + w)
    }
}

#[via_fn]
proof fn wtokens_of_decreases(s: Seq<char>, i: int) {
    if 0 <= i < s.len() && is_word_char(s[i]) {
        lemma_wtoken_run_bound(s, i);
    }
}

/// One token counted into the tally: the first row with the same word is
/// bumped, a new word starts at one.
pub open spec fn bump(counts: Seq<(Seq<char>, int)>, t: Seq<char>) -> Seq<(Seq<char>, int)>
    decreases counts.len(),
{
    if counts.len() == 0 {
        seq![(t, 1int)]
    } else if counts[0].0 == t {
        seq![(counts[0].0, counts[0].1 + 1)] + counts.drop_first()
    } else {
        seq![counts[0]] + bump(counts.drop_first(), t)
    }
}

/// The tally of the first `n` tokens.
pub open spec fn tally(ts: Seq<Seq<char>>, n: int) -> Seq<(Seq<char>, int)>
    decreases n,
{
    if n <= 0 {
        Seq::empty()
    } else {
        bump(tally(ts, n - 1), ts[n - 1])
    }
}

/// View of the tally rows.
pub open spec fn counts_view(v: Seq<(String, usize)>) -> Seq<(Seq<char>, int)> {
    v.map_values(|p: (String, usize)| (p.0@, p.1 as int))
}

proof fn lemma_bump_at(counts: Seq<(Seq<char>, int)>, t: Seq<char>, k: int)
    requires
        0 <= k <= counts.len(),
        forall|m: int| 0 <= m < k ==> (#[trigger] counts[m]).0 != t,
        k < counts.len() ==> counts[k].0 == t,
    ensures
        k < counts.len() ==> bump(counts, t) == counts.update(k, (t, counts[k].1 + 1)),
        k == counts.len() ==> bump(counts, t) == counts.push((t, 1int)),
    decreases k,
{
    if counts.len() == 0 {
        assert(bump(counts, t) =~= counts.push((t, 1int)));
    } else if k == 0 {
        if counts[0].0 == t {
            assert(bump(counts, t) =~= counts.update(0, (t, counts[0].1 + 1)));
        }
    } else {
        let d = counts.drop_first();
        assert(counts[0].0 != t);
        assert forall|m: int| 0 <= m < k - 1 implies (#[trigger] d[m]).0 != t by {
            assert(d[m] == counts[m + 1]);
        }
        lemma_bump_at(d, t, k - 1);
        if k < counts.len() {
            assert(d[k - 1] == counts[k]);
            assert(bump(counts, t) =~= counts.update(k, (t, counts[k].1 + 1)));
        } else {
            assert(bump(counts, t) =~= counts.push((t, 1int)));
        }
    }
}

fn wtoken_run_exec(v: &Vec<char>, i: usize) -> (n: usize)
    requires
        i <= v@.len(),
    ensures
        n == wtoken_run(v@, i as int),
        i + n <= v@.len(),
{
    let mut k: usize = i;
    while k < v.len() && is_word(v[k])
        invariant
            i <= k <= v@.len(),
            wtoken_run(v@, i as int) == k - i + wtoken_run(v@, k as int),
        decreases v@.len() - k,
    {
        proof {
            assert(wtoken_run(v@, k as int) == 1 + wtoken_run(v@, k + 1));
        }
        k = k + 1;
    }
    proof {
        assert(wtoken_run(v@, k as int) == 0);
    }
    k - i
}

/// Counts how often each word occurs in the text: one row per distinct
/// word, in order of first occurrence, with its exact occurrence count.
pub fn tokenize(text: &str) -> (r: Vec<(String, usize)>)
    ensures
        counts_view(r@) == ({
            let ts = wtokens_of(text@, 0);
            tally(ts, ts.len() as int)
        }),
{
    let v = to_char_vec(text);
    let n = v.len();
    let ghost ts = wtokens_of(v@, 0);
    let ghost mut consumed: Seq<Seq<char>> = Seq::empty();
    let mut out: Vec<(String, usize)> = Vec::new();
    let mut i: usize = 0;
    while i < n
        invariant
            0 <= i <= n,
            n == v@.len(),
            ts == wtokens_of(v@, 0),
            ts == consumed + wtokens_of(v@, i as int),
            counts_view(out@) == tally(consumed, consumed.len() as int),
            forall|m: int| 0 <= m < out@.len() ==> (#[trigger] out@[m]).1 <= i,
        decreases n - i,
    {
        if !is_word(v[i]) {
            proof {
                assert(ts =~= consumed + wtokens_of(v@, i + 1));
            }
            i = i + 1;
        } else {
            let w = wtoken_run_exec(&v, i);
            proof {
                lemma_wtoken_run_bound(v@, i as int);
            }
            let ghost word = v@.subrange(i as int, i + w as int);
            let mut wv: Vec<char> = Vec::new();
            let mut m: usize = i;
            while m < i + w
                invariant
                    i <= m <= i + w,
                    i + w <= n,
                    n == v@.len(),
                    wv@ == v@.subrange(i as int, m as int),
                decreases i + w - m,
            {
                wv.push(v[m]);
                m = m + 1;
                assert(wv@ =~= v@.subrange(i as int, m as int));
            }
            let token = crate::textutil::chars_to_string(wv.as_slice());
            let ghost before = counts_view(out@);
            match find_token(&out, &token) {
                Some(k) => {
                    proof {
                        lemma_bump_at(before, word, k as int);
                    }
                    let c = out[k].1;
                    assert(c <= i);
                    out.set(k, (token, c + 1));
                    proof {
                        assert(counts_view(out@) =~= before.update(k as int, (word, c + 1 as int)));
                    }
                },
                None => {
                    proof {
                        lemma_bump_at(before, word, before.len() as int);
                    }
                    out.push((token, 1));
                    proof {
                        assert(counts_view(out@) =~= before.push((word, 1int)));
                    }
                },
            }
            proof {
                let oldc = consumed;
                consumed = consumed.push(word);
                lemma_tally_push(oldc, word, oldc.len() as int);
                assert(consumed[consumed.len() - 1] == word);
                assert(tally(consumed, consumed.len() as int) == bump(
                    tally(oldc, oldc.len() as int),
                    word,
                ));
                assert(ts =~= consumed + wtokens_of(v@, i + w as int));
            }
            i = i + w;
        }
    }
    proof {
        assert(wtokens_of(v@, n as int) =~= Seq::<Seq<char>>::empty());
        assert(ts =~= consumed);
    }
    out
}

proof fn lemma_tally_push(ts: Seq<Seq<char>>, x: Seq<char>, n: int)
    requires
        0 <= n <= ts.len(),
    ensures
        tally(ts.push(x), n) == tally(ts, n),
    decreases n,
{
    if n > 0 {
        lemma_tally_push(ts, x, n - 1);
        assert(ts.push(x)[n - 1] == ts[n - 1]);
    }
}

fn find_token(out: &Vec<(String, usize)>, token: &String) -> (r: Option<usize>)
    ensures
        match r {
            Some(k) => k < out@.len() && counts_view(out@)[k as int].0 == token@ && (forall|q: int|
                0 <= q < k ==> (#[trigger] counts_view(out@)[q]).0 != token@),
            None => forall|q: int|
                0 <= q < out@.len() ==> (#[trigger] counts_view(out@)[q]).0 != token@,
        },
{
    let mut k: usize = 0;
    while k < out.len()
        invariant
            0 <= k <= out@.len(),
            forall|q: int| 0 <= q < k ==> (#[trigger] counts_view(out@)[q]).0 != token@,
        decreases out@.len() - k,
    {
        assert(counts_view(out@)[k as int] == (out@[k as int].0@, out@[k as int].1 as int));
        if out[k].0.eq(token) {
            return Some(k);
        }
        k = k + 1;
    }
    None
}

/// The days, hours, minutes and seconds of an uptime span.
pub fn uptime_parts(total_seconds: u64) -> (r: (u64, u64, u64, u64))
    ensures
        r.3 == total_seconds as int % 60,
        r.2 == (total_seconds as int / 60) % 60,
        r.1 == (total_seconds as int / 3600) % 24,
        r.0 == total_seconds as int / 86400,
{
    let seconds = total_seconds % 60;
    let minutes_total = total_seconds / 60;
    let minutes = minutes_total % 60;
    let hours_total = minutes_total / 60;
    let hours = hours_total % 24;
    let days = hours_total / 24;
    proof {
        assert(total_seconds as int / 60 / 60 == total_seconds as int / 3600) by (nonlinear_arith);
        assert(total_seconds as int / 60 / 60 / 24 == total_seconds as int / 86400)
            by (nonlinear_arith);
    }
    (days, hours, minutes, seconds)
}

} // verus!
