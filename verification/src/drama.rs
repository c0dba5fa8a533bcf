//! Drama phrase generation: each placeholder-prefixed word of a template
//! phrase is rewritten with a randomly chosen name from the configured
//! lists.
use vstd::prelude::*;

use crate::html::word_run;
use crate::textutil::{is_ws, is_ws_char, push_char, to_char_vec};

verus! {

/// The drama vocabulary: name lists, template phrases, and the placeholder
/// prefixes that select a list.
#[derive(Clone, Debug)]
pub struct DramaConfig {
    pub people: Vec<String>,
    pub servers: Vec<String>,
    pub bsoftware: Vec<String>,
    pub phrases: Vec<String>,
    pub replacers: Vec<(String, String)>,
}

/// Mathematical view of the vocabulary.
pub struct DramaView {
    pub people: Seq<Seq<char>>,
    pub servers: Seq<Seq<char>>,
    pub bsoftware: Seq<Seq<char>>,
    pub phrases: Seq<Seq<char>>,
    pub replacers: Seq<(Seq<char>, Seq<char>)>,
}

impl View for DramaConfig {
    type V = DramaView;

    open spec fn view(&self) -> DramaView {
        DramaView {
            people: self.people.deep_view(),
            servers: self.servers.deep_view(),
            bsoftware: self.bsoftware.deep_view(),
            phrases: self.phrases.deep_view(),
            replacers: self.replacers@.map_values(
                |p: (String, String)| (p.0@, p.1@),
            ),
        }
    }
}

/// The name list a replacer target key selects; unknown keys select none.
pub open spec fn options_of(cfg: DramaView, target: Seq<char>) -> Seq<Seq<char>> {
    if target == "people"@ {
        cfg.people
    } else if target == "servers"@ {
        cfg.servers
    } else if target == "bsoftware"@ {
        cfg.bsoftware
    } else {
        Seq::empty()
    }
}

pub open spec fn starts_with(s: Seq<char>, p: Seq<char>) -> bool {
    p.len() <= s.len() && s.take(p.len() as int) == p
}

/// Index of the first replacer whose prefix starts the word and whose
/// target list is non-empty, -1 when no replacer applies.
pub open spec fn first_applicable_from(cfg: DramaView, w: Seq<char>, k: int) -> int
    decreases cfg.replacers.len() - k,
{
    if k < 0 || k >= cfg.replacers.len() {
        -1
    } else if starts_with(w, cfg.replacers[k].0) && options_of(cfg, cfg.replacers[k].1).len() > 0 {
        k
    } else {
        first_applicable_from(cfg, w, k + 1)
    }
}

/// One word rewritten correctly: unchanged when no replacer applies, else
/// its placeholder prefix replaced with one of the selected list's names.
pub open spec fn word_filled(cfg: DramaView, w: Seq<char>, r: Seq<char>) -> bool {
    let k = first_applicable_from(cfg, w, 0);
    if k < 0 {
        r == w
    } else {
        exists|j: int|
            0 <= j < options_of(cfg, cfg.replacers[k].1).len() && r == options_of(
                cfg,
                cfg.replacers[k].1,
            )[j] + w.skip(cfg.replacers[k].0.len() as int)
    }
}

/// The whitespace-separated words of `s`, from position `i` on.
pub open spec fn words_of(s: Seq<char>, i: int) -> Seq<Seq<char>>
    decreases s.len() - i, s.len() - i + 1
        when 0 <= i
        via words_of_decreases
{
    if i >= s.len() {
        Seq::empty()
    } else if is_ws_char(s[i]) {
        words_of(s, i + 1)
    } else {
        let w = word_run(s, i);
        seq![s.subrange(i, i + w)] + words_of(s, i + w)
    }
}

#[via_fn]
proof fn words_of_decreases(s: Seq<char>, i: int) {
    if 0 <= i < s.len() && !is_ws_char(s[i]) {
        crate::html::lemma_word_run_bound(s, i);
    }
}

/// Words joined by single spaces.
pub open spec fn join_spaces(ws: Seq<Seq<char>>) -> Seq<char>
    decreases ws.len(),
{
    if ws.len() == 0 {
        Seq::empty()
    } else if ws.len() == 1 {
        ws[0]
    } else {
        join_spaces(ws.drop_last()) + seq![' '] + ws.last()
    }
}

/// Relies on `rand::random_range`: a uniformly random index below `n`; the
/// result is in the sampled range, and nothing more is assumed of it.
#[verifier::external_body]
fn random_below(n: usize) -> (r: usize)
    requires
        n > 0,
    ensures
        r < n,
{
    rand::random_range(0..n)
}

fn str_eq(a: &str, b: &str) -> (r: bool)
    ensures
        r == (a@ == b@),
{
    let la = a.unicode_len();
    let lb = b.unicode_len();
    if la != lb {
        proof {
            assert(a@.len() != b@.len());
        }
        return false;
    }
    let mut k: usize = 0;
    while k < la
        invariant
            0 <= k <= la,
            la == a@.len(),
            la == b@.len(),
            forall|m: int| 0 <= m < k ==> a@[m] == b@[m],
        decreases la - k,
    {
        if a.get_char(k) != b.get_char(k) {
            return false;
        }
        k = k + 1;
    }
    assert(a@ =~= b@);
    true
}

fn options_of_exec<'a>(cfg: &'a DramaConfig, target: &String) -> (r: Option<&'a Vec<String>>)
    ensures
        match r {
            Some(v) => v.deep_view() == options_of(cfg@, target@) && v.deep_view().len() > 0,
            None => options_of(cfg@, target@).len() == 0,
        },
{
    proof {
        reveal_strlit("people");
        reveal_strlit("servers");
        reveal_strlit("bsoftware");
    }
    let r: Option<&'a Vec<String>> = if str_eq(target.as_str(), "people") {
        Some(&cfg.people)
    } else if str_eq(target.as_str(), "servers") {
        Some(&cfg.servers)
    } else if str_eq(target.as_str(), "bsoftware") {
        Some(&cfg.bsoftware)
    } else {
        None
    };
    match r {
        Some(v) => {
            if v.len() == 0 {
                None
            } else {
                Some(v)
            }
        },
        None => None,
    }
}

fn starts_with_exec(s: &Vec<char>, p: &String) -> (r: bool)
    ensures
        r == starts_with(s@, p@),
{
    let pl = p.as_str().unicode_len();
    let n = s.len();
    if pl > n {
        return false;
    }
    let mut k: usize = 0;
    while k < pl
        invariant
            0 <= k <= pl,
            pl == p@.len(),
            pl <= n == s@.len(),
            forall|m: int| 0 <= m < k ==> s@[m] == p@[m],
        decreases pl - k,
    {
        if s[k] != p.as_str().get_char(k) {
            assert(s@.take(pl as int)[k as int] != p@[k as int]);
            return false;
        }
        k = k + 1;
    }
    assert(s@.take(pl as int) =~= p@);
    true
}

/// Rewrites one word: the first applicable replacer's prefix is replaced by
/// a random name from its list; a word no replacer applies to is returned
/// unchanged.
fn fill_word(cfg: &DramaConfig, w: &Vec<char>) -> (r: String)
    ensures
        word_filled(cfg@, w@, r@),
{
    let mut k: usize = 0;
    let n = cfg.replacers.len();
    while k < n
        invariant
            0 <= k <= n,
            n == cfg.replacers@.len(),
            first_applicable_from(cfg@, w@, 0) == first_applicable_from(cfg@, w@, k as int),
        decreases n - k,
    {
        assert(cfg@.replacers[k as int] == (cfg.replacers@[k as int].0@, cfg.replacers@[
            k as int].1@));
        let applies = starts_with_exec(w, &cfg.replacers[k].0);
        if applies {
            match options_of_exec(cfg, &cfg.replacers[k].1) {
                Some(opts) => {
                    let j = random_below(opts.len());
                    let mut out = opts[j].clone();
                    let pl = cfg.replacers[k].0.as_str().unicode_len();
                    let mut m: usize = pl;
                    while m < w.len()
                        invariant
                            pl <= m <= w@.len(),
                            out@ == opts.deep_view()[j as int] + w@.subrange(pl as int, m as int),
                        decreases w@.len() - m,
                    {
                        push_char(&mut out, w[m]);
                        m = m + 1;
                        assert(out@ =~= opts.deep_view()[j as int] + w@.subrange(
                            pl as int,
                            m as int,
                        ));
                    }
                    proof {
                        assert(w@.subrange(pl as int, w@.len() as int) =~= w@.skip(pl as int));
                        assert(first_applicable_from(cfg@, w@, k as int) == k);
                    }
                    return out;
                },
                None => {},
            }
        }
        k = k + 1;
    }
    crate::textutil::chars_to_string(w.as_slice())
}

/// Every word of the result rewrites the matching input word correctly.
pub open spec fn words_filled(cfg: DramaView, input: Seq<Seq<char>>, ws: Seq<Seq<char>>) -> bool {
    ws.len() == input.len() && (forall|i: int|
        0 <= i < ws.len() ==> word_filled(cfg, input[i], #[trigger] ws[i]))
}

/// Fills one template phrase: every whitespace-separated word is rewritten
/// by its first applicable replacer (or kept), and the words are joined by
/// single spaces.
pub fn fill_phrase(phrase: &str, cfg: &DramaConfig) -> (r: String)
    ensures
        exists|ws: Seq<Seq<char>>|
            #[trigger] words_filled(cfg@, words_of(phrase@, 0), ws) && r@ == join_spaces(ws),
{
    let v = to_char_vec(phrase);
    let n = v.len();
    let ghost input = words_of(v@, 0);
    let ghost mut filled: Seq<Seq<char>> = Seq::empty();
    let ghost mut consumed: Seq<Seq<char>> = Seq::empty();
    let mut out = String::new();
    let mut count: usize = 0;
    let mut j: usize = 0;
    while j < n && is_ws(v[j])
        invariant
            0 <= j <= n,
            n == v@.len(),
            words_of(v@, 0) == words_of(v@, j as int),
        decreases n - j,
    {
        j = j + 1;
    }
    while j < n
        invariant
            0 <= j <= n,
            n == v@.len(),
            input == words_of(v@, 0),
            j < n ==> !is_ws_char(v@[j as int]),
            input == consumed + words_of(v@, j as int),
            filled.len() == consumed.len(),
            forall|i: int| 0 <= i < filled.len() ==> word_filled(cfg@, consumed[i], #[trigger] filled[i]),
            out@ == join_spaces(filled),
            count == filled.len(),
            count <= j,
        decreases n - j,
    {
        let w = crate::html::word_run_exec(&v, j);
        proof {
            crate::html::lemma_word_run_bound(v@, j as int);
        }
        assert(w >= 1);
        let ghost word = v@.subrange(j as int, j + w as int);
        let mut wv: Vec<char> = Vec::new();
        let mut m: usize = j;
        while m < j + w
            invariant
                j <= m <= j + w,
                j + w <= n,
                n == v@.len(),
                wv@ == v@.subrange(j as int, m as int),
            decreases j + w - m,
        {
            wv.push(v[m]);
            m = m + 1;
            assert(wv@ =~= v@.subrange(j as int, m as int));
        }
        let fw = fill_word(cfg, &wv);
        if count > 0 {
            push_char(&mut out, ' ');
        }
        out.append(fw.as_str());
        proof {
            let oldf = filled;
            consumed = consumed.push(word);
            filled = filled.push(fw@);
            assert(filled.drop_last() =~= oldf);
            assert(filled.last() == fw@);
            assert(out@ =~= join_spaces(filled));
        }
        count = count + 1;
        let mut p: usize = j + w;
        while p < n && is_ws(v[p])
            invariant
                j + w <= p <= n,
                n == v@.len(),
                words_of(v@, j + w as int) == words_of(v@, p as int),
            decreases n - p,
        {
            p = p + 1;
        }
        proof {
            assert(words_of(v@, j as int) =~= seq![word] + words_of(v@, j + w as int));
            assert(input =~= consumed + words_of(v@, p as int));
        }
        j = p;
    }
    proof {
        assert(words_of(v@, n as int) =~= Seq::<Seq<char>>::empty());
        assert(input =~= consumed);
        assert(words_filled(cfg@, words_of(phrase@, 0), filled));
    }
    out
}

} // verus!
