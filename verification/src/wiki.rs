//! The wiki snapshot: link targets of the published wiki document, the
//! consistency audit of persisted records against it, and search over the
//! document's sections.
//!
//! Parsing the markup itself is the outside parser's work; everything on
//! top of the parsed events — canonicalization, membership, the audit
//! verdicts, section matching — is verified here.
use vstd::prelude::*;

use crate::records::{records_view, RecordView, WikiUrlRecord, WikiUrlStatus};
use crate::textutil::{lower, lower_seq};
use crate::urls::{clean_spec, clean_url};

verus! {

/// The link destinations of a markdown document, in document order: what
/// the outside parser streams out of it.
pub uninterp spec fn md_link_dests(s: Seq<char>) -> Seq<Seq<char>>;

/// Relies on `pulldown_cmark::Parser`: streams the events of a markdown
/// document; the destinations of its link-start events, in order, are the
/// document's outbound link targets.
#[verifier::external_body]
fn md_link_destinations(content: &str) -> (r: Vec<String>)
    ensures
        r.deep_view() == md_link_dests(content@),
{
    let mut urls = Vec::new();
    for event in pulldown_cmark::Parser::new(content) {
        if let pulldown_cmark::Event::Start(pulldown_cmark::Tag::Link { dest_url, .. }) = event {
            urls.push(dest_url.into_string());
        }
    }
    urls
}

/// Every link destination of the wiki document, as the parser streams them.
pub fn collect_wiki_urls(content: &str) -> (r: Vec<String>)
    ensures
        r.deep_view() == md_link_dests(content@),
{
    md_link_destinations(content)
}

/// Canonical forms of a URL list, first occurrence only.
pub open spec fn clean_dedup(us: Seq<Seq<char>>, n: int) -> Seq<Seq<char>>
    decreases n,
{
    if n <= 0 {
        Seq::empty()
    } else {
        let r = clean_dedup(us, n - 1);
        let c = clean_spec(us[n - 1]);
        if r.contains(c) {
            r
        } else {
            r.push(c)
        }
    }
}

fn contains_string(v: &Vec<String>, c: &String) -> (r: bool)
    ensures
        r == v.deep_view().contains(c@),
{
    let mut k: usize = 0;
    while k < v.len()
        invariant
            0 <= k <= v@.len(),
            forall|m: int| 0 <= m < k ==> v.deep_view()[m] != c@,
        decreases v@.len() - k,
    {
        if v[k].eq(c) {
            assert(v.deep_view()[k as int] == c@);
            return true;
        }
        k = k + 1;
    }
    false
}

/// The set of URLs the wiki holds live right now: every link target of the
/// published document, canonicalized and deduplicated.
pub fn live_wiki_urls(content: &str) -> (r: Vec<String>)
    ensures
        r.deep_view() == ({
            let ds = md_link_dests(content@);
            clean_dedup(ds, ds.len() as int)
        }),
{
    let dests = md_link_destinations(content);
    let ghost ds = md_link_dests(content@);
    let mut out: Vec<String> = Vec::new();
    let mut i: usize = 0;
    while i < dests.len()
        invariant
            0 <= i <= dests@.len(),
            dests.deep_view() == ds,
            ds.len() == dests@.len(),
            out.deep_view() == clean_dedup(ds, i as int),
        decreases dests@.len() - i,
    {
        assert(dests@[i as int]@ == ds[i as int]);
        let c = clean_url(dests[i].as_str());
        if !contains_string(&out, &c) {
            out.push(c);
            assert(out.deep_view() =~= clean_dedup(ds, i + 1));
        } else {
            assert(out.deep_view() =~= clean_dedup(ds, i + 1));
        }
        i = i + 1;
    }
    out
}

/// `Added` records among the first `n` whose URL the snapshot does not
/// hold: tracked as live but not actually on the wiki.
pub open spec fn audit_not_live(rs: Seq<RecordView>, snap: Seq<Seq<char>>, n: int) -> Seq<
    RecordView,
>
    decreases n,
{
    if n <= 0 {
        Seq::empty()
    } else {
        let r = audit_not_live(rs, snap, n - 1);
        if rs[n - 1].status == WikiUrlStatus::Added && !snap.contains(rs[n - 1].url) {
            r.push(rs[n - 1])
        } else {
            r
        }
    }
}

/// `Pending`/`Removed` records among the first `n` whose URL the snapshot
/// does hold: they should be `Added`.
pub open spec fn audit_should_add(rs: Seq<RecordView>, snap: Seq<Seq<char>>, n: int) -> Seq<
    RecordView,
>
    decreases n,
{
    if n <= 0 {
        Seq::empty()
    } else {
        let r = audit_should_add(rs, snap, n - 1);
        if rs[n - 1].status != WikiUrlStatus::Added && snap.contains(rs[n - 1].url) {
            r.push(rs[n - 1])
        } else {
            r
        }
    }
}

/// The consistency report of persisted records against the wiki snapshot:
/// `Added` records absent from the snapshot, and `Pending`/`Removed`
/// records present in it. The audit never mutates a record — the snapshot
/// itself may be stale, so the report is for human review.
pub fn audit_records(records: &Vec<WikiUrlRecord>, snapshot: &Vec<String>) -> (r: (
    Vec<WikiUrlRecord>,
    Vec<WikiUrlRecord>,
))
    ensures
        records_view(r.0@) == audit_not_live(
            records_view(records@),
            snapshot.deep_view(),
            records@.len() as int,
        ),
        records_view(r.1@) == audit_should_add(
            records_view(records@),
            snapshot.deep_view(),
            records@.len() as int,
        ),
{
    let ghost rv = records_view(records@);
    let ghost snap = snapshot.deep_view();
    let mut not_live: Vec<WikiUrlRecord> = Vec::new();
    let mut should_add: Vec<WikiUrlRecord> = Vec::new();
    let mut i: usize = 0;
    while i < records.len()
        invariant
            0 <= i <= records@.len(),
            rv == records_view(records@),
            rv.len() == records@.len(),
            snap == snapshot.deep_view(),
            records_view(not_live@) == audit_not_live(rv, snap, i as int),
            records_view(should_add@) == audit_should_add(rv, snap, i as int),
        decreases records@.len() - i,
    {
        assert(rv[i as int] == records@[i as int]@);
        let in_snap = contains_string(snapshot, &records[i].url);
        let is_added = match records[i].status {
            WikiUrlStatus::Added => true,
            _ => false,
        };
        if is_added && !in_snap {
            not_live.push(records[i].duplicate());
        } else if !is_added && in_snap {
            should_add.push(records[i].duplicate());
        }
        assert(records_view(not_live@) =~= audit_not_live(rv, snap, i + 1));
        assert(records_view(should_add@) =~= audit_should_add(rv, snap, i + 1));
        i = i + 1;
    }
    (not_live, should_add)
}

/// The URLs of the batch the snapshot holds (first result) and does not
/// hold (second), in order: the bulk-migration split, where an `Added`
/// observation counts only when the URL is really live and a `Removed`
/// observation only when it is really gone.
pub fn partition_by_snapshot(urls: &Vec<String>, snapshot: &Vec<String>) -> (r: (
    Vec<String>,
    Vec<String>,
))
    ensures
        r.0.deep_view() == in_snapshot(urls.deep_view(), snapshot.deep_view(), urls@.len() as int),
        r.1.deep_view() == not_in_snapshot(
            urls.deep_view(),
            snapshot.deep_view(),
            urls@.len() as int,
        ),
{
    let ghost us = urls.deep_view();
    let ghost snap = snapshot.deep_view();
    let mut present: Vec<String> = Vec::new();
    let mut absent: Vec<String> = Vec::new();
    let mut i: usize = 0;
    while i < urls.len()
        invariant
            0 <= i <= urls@.len(),
            us == urls.deep_view(),
            us.len() == urls@.len(),
            snap == snapshot.deep_view(),
            present.deep_view() == in_snapshot(us, snap, i as int),
            absent.deep_view() == not_in_snapshot(us, snap, i as int),
        decreases urls@.len() - i,
    {
        assert(us[i as int] == urls@[i as int]@);
        if contains_string(snapshot, &urls[i]) {
            present.push(urls[i].clone());
        } else {
            absent.push(urls[i].clone());
        }
        assert(present.deep_view() =~= in_snapshot(us, snap, i + 1));
        assert(absent.deep_view() =~= not_in_snapshot(us, snap, i + 1));
        i = i + 1;
    }
    (present, absent)
}

pub open spec fn in_snapshot(us: Seq<Seq<char>>, snap: Seq<Seq<char>>, n: int) -> Seq<Seq<char>>
    decreases n,
{
    if n <= 0 {
        Seq::empty()
    } else {
        let r = in_snapshot(us, snap, n - 1);
        if snap.contains(us[n - 1]) {
            r.push(us[n - 1])
        } else {
            r
        }
    }
}

pub open spec fn not_in_snapshot(us: Seq<Seq<char>>, snap: Seq<Seq<char>>, n: int) -> Seq<
    Seq<char>,
>
    decreases n,
{
    if n <= 0 {
        Seq::empty()
    } else {
        let r = not_in_snapshot(us, snap, n - 1);
        if !snap.contains(us[n - 1]) {
            r.push(us[n - 1])
        } else {
            r
        }
    }
}

} // verus!

verus! {

/// Case-insensitive occurrence of `p` in `s` at position `i`.
pub open spec fn ci_at(s: Seq<char>, i: int, p: Seq<char>) -> bool {
    i >= 0 && i + p.len() <= s.len() && lower_seq(s.subrange(i, i + p.len())) == lower_seq(p)
}

/// First case-insensitive occurrence of `p` at or after `i`, -1 when none.
pub open spec fn find_ci_from(s: Seq<char>, i: int, p: Seq<char>) -> int
    decreases s.len() - i,
{
    if i < 0 || i >= s.len() || i + p.len() > s.len() {
        -1
    } else if ci_at(s, i, p) {
        i
    } else {
        find_ci_from(s, i + 1, p)
    }
}

/// Whether `p` occurs in `s`, ignoring ASCII case.
pub open spec fn contains_ci_spec(s: Seq<char>, p: Seq<char>) -> bool {
    find_ci_from(s, 0, p) >= 0
}

fn ci_at_exec(v: &Vec<char>, i: usize, p: &Vec<char>) -> (r: bool)
    requires
        i <= v@.len(),
        i + p@.len() <= v@.len(),
    ensures
        r == ci_at(v@, i as int, p@),
{
    let pl = p.len();
    let n = v.len();
    let ghost sub = v@.subrange(i as int, i + p@.len());
    let mut k: usize = 0;
    while k < pl
        invariant
            0 <= k <= pl,
            pl == p@.len(),
            n == v@.len(),
            i + pl <= n,
            sub == v@.subrange(i as int, i + p@.len()),
            forall|m: int|
                0 <= m < k ==> crate::textutil::lower_char(#[trigger] v@[i + m])
                    == crate::textutil::lower_char(p@[m]),
        decreases pl - k,
    {
        if lower(v[i + k]) != lower(p[k]) {
            assert(sub[k as int] == v@[i + k]);
            assert(lower_seq(sub)[k as int] != lower_seq(p@)[k as int]);
            return false;
        }
        k = k + 1;
    }
    assert(lower_seq(sub) =~= lower_seq(p@)) by {
        assert forall|m: int| 0 <= m < pl implies lower_seq(sub)[m] == lower_seq(p@)[m] by {
            assert(sub[m] == v@[i + m]);
        }
    }
    true
}

/// Case-insensitive containment test.
pub fn contains_ci(haystack: &str, needle: &str) -> (r: bool)
    ensures
        r == contains_ci_spec(haystack@, needle@),
{
    let v = crate::textutil::to_char_vec(haystack);
    let p = crate::textutil::to_char_vec(needle);
    let n = v.len();
    let pl = p.len();
    let mut i: usize = 0;
    loop
        invariant
            0 <= i <= n,
            n == v@.len(),
            v@ == haystack@,
            p@ == needle@,
            pl == p@.len(),
            find_ci_from(v@, 0, p@) == find_ci_from(v@, i as int, p@),
        decreases n - i,
    {
        if i >= n || pl > n - i {
            return false;
        }
        if ci_at_exec(&v, i, &p) {
            return true;
        }
        i = i + 1;
    }
}

/// A parsed node of the wiki document's outline: a heading with its level,
/// or one list item's text.
#[derive(Clone, Debug)]
pub enum MdNode {
    Heading { level: usize, text: String },
    Item { text: String },
}

/// Mathematical view of an outline node.
pub enum MdNodeView {
    Heading { level: int, text: Seq<char> },
    Item { text: Seq<char> },
}

impl View for MdNode {
    type V = MdNodeView;

    open spec fn view(&self) -> MdNodeView {
        match self {
            MdNode::Heading { level, text } => MdNodeView::Heading {
                level: *level as int,
                text: text@,
            },
            MdNode::Item { text } => MdNodeView::Item { text: text@ },
        }
    }
}

pub open spec fn nodes_view(ns: Seq<MdNode>) -> Seq<MdNodeView> {
    ns.map_values(|n: MdNode| n@)
}

/// The heading stack after the first `n` nodes: a heading of level `l`
/// truncates the stack to `l - 1` entries and pushes itself.
pub open spec fn stack_after(ns: Seq<MdNodeView>, n: int) -> Seq<Seq<char>>
    decreases n,
{
    if n <= 0 {
        Seq::empty()
    } else {
        let prev = stack_after(ns, n - 1);
        match ns[n - 1] {
            MdNodeView::Heading { level, text } => {
                let keep = if level - 1 < prev.len() {
                    level - 1
                } else {
                    prev.len() as int
                };
                let keep2 = if keep < 0 {
                    0
                } else {
                    keep
                };
                prev.take(keep2).push(text)
            },
            MdNodeView::Item { .. } => prev,
        }
    }
}

/// The rendered heading path: each heading bolded, joined by slashes.
pub open spec fn path_of(stack: Seq<Seq<char>>) -> Seq<char>
    decreases stack.len(),
{
    if stack.len() == 0 {
        Seq::empty()
    } else if stack.len() == 1 {
        "**"@ + stack[0] + "**"@
    } else {
        path_of(stack.drop_last()) + " / "@ + ("**"@ + stack.last() + "**"@)
    }
}

/// The search results after the first `n` nodes: every item whose text or
/// heading path contains the query (ignoring case), rendered as the path,
/// a separator, and the item text.
pub open spec fn results_after(ns: Seq<MdNodeView>, q: Seq<char>, n: int) -> Seq<Seq<char>>
    decreases n,
{
    if n <= 0 {
        Seq::empty()
    } else {
        let prev = results_after(ns, q, n - 1);
        match ns[n - 1] {
            MdNodeView::Heading { .. } => prev,
            MdNodeView::Item { text } => {
                let p = path_of(stack_after(ns, n - 1));
                if contains_ci_spec(text, q) || contains_ci_spec(p, q) {
                    prev.push(p + " \u{25ba} "@ + text)
                } else {
                    prev
                }
            },
        }
    }
}

fn render_path(stack: &Vec<String>) -> (r: String)
    ensures
        r@ == path_of(stack.deep_view()),
{
    proof {
        reveal_strlit("**");
        reveal_strlit(" / ");
    }
    let ghost sv = stack.deep_view();
    let mut out = String::new();
    let mut i: usize = 0;
    while i < stack.len()
        invariant
            0 <= i <= stack@.len(),
            sv == stack.deep_view(),
            sv.len() == stack@.len(),
            out@ == path_of(sv.take(i as int)),
        decreases stack@.len() - i,
    {
        proof {
            reveal_strlit("**");
            reveal_strlit(" / ");
        }
        if i > 0 {
            out.append(" / ");
        }
        out.append("**");
        out.append(stack[i].as_str());
        out.append("**");
        proof {
            assert(sv.take(i + 1).drop_last() =~= sv.take(i as int));
            assert(sv.take(i + 1).last() == sv[i as int]);
            assert(out@ =~= path_of(sv.take(i + 1)));
        }
        i = i + 1;
    }
    proof {
        assert(sv.take(sv.len() as int) =~= sv);
    }
    out
}

/// Searches the wiki document's outline for a query: every list item whose
/// own text or heading path mentions the query, case-insensitively, is
/// returned as "path, separator, item text", in document order.
pub fn search_wiki_sections(nodes: &Vec<MdNode>, query: &str) -> (r: Vec<String>)
    ensures
        r.deep_view() == results_after(nodes_view(nodes@), query@, nodes@.len() as int),
{
    proof {
        reveal_strlit(" \u{25ba} ");
    }
    let ghost nv = nodes_view(nodes@);
    let mut stack: Vec<String> = Vec::new();
    let mut out: Vec<String> = Vec::new();
    let mut i: usize = 0;
    while i < nodes.len()
        invariant
            0 <= i <= nodes@.len(),
            nv == nodes_view(nodes@),
            nv.len() == nodes@.len(),
            stack.deep_view() == stack_after(nv, i as int),
            out.deep_view() == results_after(nv, query@, i as int),
        decreases nodes@.len() - i,
    {
        proof {
            reveal_strlit(" \u{25ba} ");
        }
        assert(nv[i as int] == nodes@[i as int]@);
        match &nodes[i] {
            MdNode::Heading { level, text } => {
                let lvl = *level;
                let keep = if lvl >= 1 {
                    if lvl - 1 < stack.len() {
                        lvl - 1
                    } else {
                        stack.len()
                    }
                } else {
                    0
                };
                stack.truncate(keep);
                stack.push(text.clone());
                proof {
                    assert(stack.deep_view() =~= stack_after(nv, i + 1));
                    assert(out.deep_view() =~= results_after(nv, query@, i + 1));
                }
            },
            MdNode::Item { text } => {
                let path = render_path(&stack);
                let in_text = contains_ci(text.as_str(), query);
                let in_path = contains_ci(path.as_str(), query);
                if in_text || in_path {
                    let mut line = path;
                    line.append(" \u{25ba} ");
                    line.append(text.as_str());
                    out.push(line);
                    proof {
                        assert(out.deep_view() =~= results_after(nv, query@, i + 1));
                    }
                } else {
                    proof {
                        assert(out.deep_view() =~= results_after(nv, query@, i + 1));
                    }
                }
                proof {
                    assert(stack.deep_view() =~= stack_after(nv, i + 1));
                }
            },
        }
        i = i + 1;
    }
    out
}

} // verus!
