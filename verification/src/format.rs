//! Rendering URLs and records into chat-embed text, and rendering a URL
//! list back into plain text.
use vstd::prelude::*;

use crate::records::{records_view, RecordView, WikiUrlRecord, WikiUrlStatus};
use crate::textutil::{dec_int, i64_to_string, push_char};

verus! {

/// Each URL on its own line: the textual form whose re-extraction yields
/// the same URLs back.
pub open spec fn join_lines(us: Seq<Seq<char>>) -> Seq<char>
    decreases us.len(),
{
    if us.len() == 0 {
        Seq::empty()
    } else {
        join_lines(us.drop_last()) + us.last() + seq!['\n']
    }
}

/// Renders each URL on its own line.
pub fn extract_as_text(urls: &Vec<String>) -> (r: String)
    ensures
        r@ == join_lines(urls.deep_view()),
{
    let ghost us = urls.deep_view();
    let mut out = String::new();
    let mut i: usize = 0;
    while i < urls.len()
        invariant
            0 <= i <= urls@.len(),
            us == urls.deep_view(),
            us.len() == urls@.len(),
            out@ == join_lines(us.take(i as int)),
        decreases urls@.len() - i,
    {
        out.append(urls[i].as_str());
        push_char(&mut out, '\n');
        proof {
            assert(us.take(i + 1).drop_last() =~= us.take(i as int));
            assert(us.take(i + 1).last() == us[i as int]);
            assert(out@ =~= join_lines(us.take(i + 1)));
        }
        i = i + 1;
    }
    proof {
        assert(us.take(us.len() as int) =~= us);
    }
    out
}

/// Lines joined by single newlines, no trailing newline.
pub open spec fn join_nl(ls: Seq<Seq<char>>) -> Seq<char>
    decreases ls.len(),
{
    if ls.len() == 0 {
        Seq::empty()
    } else if ls.len() == 1 {
        ls[0]
    } else {
        join_nl(ls.drop_last()) + seq!['\n'] + ls.last()
    }
}

/// One bullet line per URL.
pub open spec fn url_lines(us: Seq<Seq<char>>, n: int) -> Seq<Seq<char>>
    decreases n,
{
    if n <= 0 {
        Seq::empty()
    } else {
        url_lines(us, n - 1).push(seq!['-', ' '] + us[n - 1])
    }
}

/// Renders a URL list as embed field text, one bullet line per URL; `None`
/// when there is nothing to show.
pub fn format_urls_for_embed(urls: &Vec<String>) -> (r: Option<String>)
    ensures
        (r is None) <==> urls@.len() == 0,
        r matches Some(s) ==> s@ == join_nl(url_lines(urls.deep_view(), urls@.len() as int)),
{
    if urls.len() == 0 {
        return None;
    }
    let ghost us = urls.deep_view();
    let mut out = String::new();
    let mut i: usize = 0;
    while i < urls.len()
        invariant
            0 <= i <= urls@.len(),
            us == urls.deep_view(),
            us.len() == urls@.len(),
            out@ == join_nl(url_lines(us, i as int)),
            url_lines(us, i as int).len() == i,
        decreases urls@.len() - i,
    {
        let ghost lines = url_lines(us, i as int);
        if i > 0 {
            push_char(&mut out, '\n');
        }
        push_char(&mut out, '-');
        push_char(&mut out, ' ');
        out.append(urls[i].as_str());
        proof {
            let lines2 = url_lines(us, i + 1);
            assert(lines2.drop_last() =~= lines);
            assert(lines2.last() =~= seq!['-', ' '] + us[i as int]);
            if i == 0 {
                assert(out@ =~= join_nl(lines2));
            } else {
                assert(out@ =~= join_nl(lines2));
            }
        }
        i = i + 1;
    }
    Some(out)
}

/// The chat permalink of a record's origin message.
pub open spec fn permalink(g: i64, c: i64, m: i64) -> Seq<char> {
    " - https://discord.com/channels/"@ + dec_int(g as int) + seq!['/'] + dec_int(c as int)
        + seq!['/'] + dec_int(m as int)
}

/// The embed lines for records in a given status: `Added` records show the
/// bare URL; `Pending` and `Removed` records show the URL with the
/// permalink of the message that set them, and records lacking a complete
/// origin are left out.
pub open spec fn record_lines(rs: Seq<RecordView>, st: WikiUrlStatus, n: int) -> Seq<Seq<char>>
    decreases n,
{
    if n <= 0 {
        Seq::empty()
    } else {
        let prev = record_lines(rs, st, n - 1);
        let r = rs[n - 1];
        if r.status != st {
            prev
        } else if st == WikiUrlStatus::Added {
            prev.push(seq!['-', ' '] + r.url)
        } else {
            if r.guild_id is Some && r.channel_id is Some && r.message_id is Some {
                prev.push(
                    seq!['-', ' '] + r.url + permalink(
                        r.guild_id->0,
                        r.channel_id->0,
                        r.message_id->0,
                    ),
                )
            } else {
                prev
            }
        }
    }
}

/// Whether any record carries the status.
pub open spec fn has_status(rs: Seq<RecordView>, st: WikiUrlStatus, n: int) -> bool
    decreases n,
{
    if n <= 0 {
        false
    } else {
        rs[n - 1].status == st || has_status(rs, st, n - 1)
    }
}

/// Renders the records in one status as embed field text; `None` when no
/// record carries the status.
#[verifier::rlimit(60)]
pub fn format_records_for_embed(recs: &Vec<WikiUrlRecord>, st: WikiUrlStatus) -> (r: Option<
    String,
>)
    ensures
        (r is None) <==> !has_status(records_view(recs@), st, recs@.len() as int),
        r matches Some(s) ==> s@ == join_nl(
            record_lines(records_view(recs@), st, recs@.len() as int),
        ),
{
    proof {
        reveal_strlit(" - https://discord.com/channels/");
    }
    let ghost rv = records_view(recs@);
    let mut out = String::new();
    let mut count: usize = 0;
    let mut any = false;
    let mut i: usize = 0;
    while i < recs.len()
        invariant
            0 <= i <= recs@.len(),
            rv == records_view(recs@),
            rv.len() == recs@.len(),
            any == has_status(rv, st, i as int),
            out@ == join_nl(record_lines(rv, st, i as int)),
            count == record_lines(rv, st, i as int).len(),
            count <= i,
        decreases recs@.len() - i,
    {
        let ghost lines = record_lines(rv, st, i as int);
        assert(rv[i as int] == recs@[i as int]@);
        let rec = &recs[i];
        let matches_st = match (rec.status, st) {
            (WikiUrlStatus::Pending, WikiUrlStatus::Pending) => true,
            (WikiUrlStatus::Added, WikiUrlStatus::Added) => true,
            (WikiUrlStatus::Removed, WikiUrlStatus::Removed) => true,
            _ => false,
        };
        if matches_st {
            any = true;
            let is_added = match st {
                WikiUrlStatus::Added => true,
                _ => false,
            };
            if is_added {
                if count > 0 {
                    push_char(&mut out, '\n');
                }
                push_char(&mut out, '-');
                push_char(&mut out, ' ');
                out.append(rec.url.as_str());
                count = count + 1;
                proof {
                    let lines2 = record_lines(rv, st, i + 1);
                    assert(lines2.drop_last() =~= lines);
                    assert(lines2.last() =~= seq!['-', ' '] + rv[i as int].url);
                    assert(out@ =~= join_nl(lines2));
                }
            } else {
                match (rec.guild_id, rec.channel_id, rec.message_id) {
                    (Some(g), Some(c), Some(m)) => {
                        if count > 0 {
                            push_char(&mut out, '\n');
                        }
                        push_char(&mut out, '-');
                        push_char(&mut out, ' ');
                        out.append(rec.url.as_str());
                        proof {
                            reveal_strlit(" - https://discord.com/channels/");
                        }
                        out.append(" - https://discord.com/channels/");
                        let gs = i64_to_string(g);
                        out.append(gs.as_str());
                        push_char(&mut out, '/');
                        let cs = i64_to_string(c);
                        out.append(cs.as_str());
                        push_char(&mut out, '/');
                        let ms = i64_to_string(m);
                        out.append(ms.as_str());
                        count = count + 1;
                        proof {
                            let lines2 = record_lines(rv, st, i + 1);
                            assert(lines2.drop_last() =~= lines);
                            assert(lines2.last() =~= seq!['-', ' '] + rv[i as int].url + permalink(
                                g,
                                c,
                                m,
                            ));
                            assert(out@ =~= join_nl(lines2));
                        }
                    },
                    _ => {
                        assert(record_lines(rv, st, i + 1) =~= lines);
                    },
                }
            }
        } else {
            assert(record_lines(rv, st, i + 1) =~= lines);
        }
        i = i + 1;
    }
    if any {
        Some(out)
    } else {
        None
    }
}

} // verus!
