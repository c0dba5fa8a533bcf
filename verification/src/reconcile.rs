//! The reconciliation engine.
//!
//! Given the URLs extracted from one observation, the status its channel
//! implies, and the records already persisted for those URLs, the engine
//! decides for every URL whether to insert a new record, update the
//! existing one in place, or merely report a conflict:
//!
//! * `Pending` against no record inserts a `Pending` record;
//! * `Pending` against an existing record never mutates it, the existing
//!   record is reported back as a conflict;
//! * `Added`/`Removed` against no record inserts directly with that status;
//! * `Added`/`Removed` against an existing record overwrites the status and
//!   refreshes the origin: the authoritative channels are trusted;
//! * an ambient sighting (no status) inserts nothing; an existing record is
//!   still surfaced as an informational conflict.
//!
//! Within one batch the first occurrence of a canonical URL wins: later
//! occurrences collapse into it.
use vstd::prelude::*;

use crate::records::{records_view, Origin, RecordView, WikiUrlRecord, WikiUrlStatus};

verus! {

/// First persisted record whose URL is `u`, scanning from index `i`.
pub open spec fn find_record_from(rs: Seq<RecordView>, u: Seq<char>, i: int) -> Option<RecordView>
    decreases rs.len() - i,
{
    if i < 0 || i >= rs.len() {
        None
    } else if rs[i].url == u {
        Some(rs[i])
    } else {
        find_record_from(rs, u, i + 1)
    }
}

/// First persisted record whose URL is `u`.
pub open spec fn find_record(rs: Seq<RecordView>, u: Seq<char>) -> Option<RecordView> {
    find_record_from(rs, u, 0)
}

/// The record a fresh insert produces.
pub open spec fn mk_insert(u: Seq<char>, st: WikiUrlStatus, org: Origin, now: i64) -> RecordView {
    RecordView {
        url: u,
        name: None,
        status: st,
        user_id: Some(org.user_id),
        message_id: Some(org.message_id),
        channel_id: Some(org.channel_id),
        guild_id: org.guild_id,
        created_at: now,
        updated_at: now,
    }
}

/// The record an authoritative overwrite produces: the status is replaced,
/// the origin refreshed, and everything else (identity, name, creation
/// time) kept.
pub open spec fn mk_update(r: RecordView, st: WikiUrlStatus, org: Origin, now: i64) -> RecordView {
    RecordView {
        url: r.url,
        name: r.name,
        status: st,
        user_id: Some(org.user_id),
        message_id: Some(org.message_id),
        channel_id: Some(org.channel_id),
        guild_id: org.guild_id,
        created_at: r.created_at,
        updated_at: now,
    }
}

/// `urls[i]` is the first occurrence of its URL within the batch.
pub open spec fn is_first(urls: Seq<Seq<char>>, i: int) -> bool {
    forall|j: int| 0 <= j < i ==> urls[j] != urls[i]
}

/// Records the plan inserts, considering the first `n` URLs of the batch.
pub open spec fn plan_inserts(
    urls: Seq<Seq<char>>,
    st: Option<WikiUrlStatus>,
    ex: Seq<RecordView>,
    org: Origin,
    now: i64,
    n: int,
) -> Seq<RecordView>
    decreases n,
{
    if n <= 0 {
        Seq::empty()
    } else {
        let r = plan_inserts(urls, st, ex, org, now, n - 1);
        if is_first(urls, n - 1) && find_record(ex, urls[n - 1]) is None && st is Some {
            r.push(mk_insert(urls[n - 1], st->0, org, now))
        } else {
            r
        }
    }
}

/// Records the plan updates in place, considering the first `n` URLs.
pub open spec fn plan_updates(
    urls: Seq<Seq<char>>,
    st: Option<WikiUrlStatus>,
    ex: Seq<RecordView>,
    org: Origin,
    now: i64,
    n: int,
) -> Seq<RecordView>
    decreases n,
{
    if n <= 0 {
        Seq::empty()
    } else {
        let r = plan_updates(urls, st, ex, org, now, n - 1);
        if is_first(urls, n - 1) && find_record(ex, urls[n - 1]) is Some && (st == Some(
            WikiUrlStatus::Added,
        ) || st == Some(WikiUrlStatus::Removed)) {
            r.push(mk_update(find_record(ex, urls[n - 1])->0, st->0, org, now))
        } else {
            r
        }
    }
}

/// Existing records the plan reports back as conflicts, considering the
/// first `n` URLs.
pub open spec fn plan_conflicts(
    urls: Seq<Seq<char>>,
    st: Option<WikiUrlStatus>,
    ex: Seq<RecordView>,
    org: Origin,
    now: i64,
    n: int,
) -> Seq<RecordView>
    decreases n,
{
    if n <= 0 {
        Seq::empty()
    } else {
        let r = plan_conflicts(urls, st, ex, org, now, n - 1);
        if is_first(urls, n - 1) && find_record(ex, urls[n - 1]) is Some && (st == Some(
            WikiUrlStatus::Pending,
        ) || st is None) {
            r.push(find_record(ex, urls[n - 1])->0)
        } else {
            r
        }
    }
}

/// What one observation batch does to the store: fresh inserts, in-place
/// updates, and the existing records surfaced as conflicts.
pub struct ReconciliationPlan {
    pub to_insert: Vec<WikiUrlRecord>,
    pub to_update: Vec<WikiUrlRecord>,
    pub conflicts: Vec<WikiUrlRecord>,
}

fn first_occurrence(urls: &Vec<String>, i: usize) -> (r: bool)
    requires
        i < urls@.len(),
    ensures
        r == is_first(urls.deep_view(), i as int),
{
    let mut j: usize = 0;
    while j < i
        invariant
            0 <= j <= i < urls@.len(),
            forall|m: int| 0 <= m < j ==> urls.deep_view()[m] != urls.deep_view()[i as int],
        decreases i - j,
    {
        if urls[j].eq(&urls[i]) {
            assert(urls.deep_view()[j as int] == urls.deep_view()[i as int]);
            return false;
        }
        j = j + 1;
    }
    true
}

fn find_record_exec<'a>(existing: &'a Vec<WikiUrlRecord>, u: &String) -> (r: Option<
    &'a WikiUrlRecord,
>)
    ensures
        match r {
            Some(rec) => find_record(records_view(existing@), u@) == Some(rec@),
            None => find_record(records_view(existing@), u@) is None,
        },
{
    let ghost rv = records_view(existing@);
    let mut k: usize = 0;
    while k < existing.len()
        invariant
            0 <= k <= existing@.len(),
            rv == records_view(existing@),
            rv.len() == existing@.len(),
            find_record_from(rv, u@, 0) == find_record_from(rv, u@, k as int),
        decreases existing@.len() - k,
    {
        assert(rv[k as int] == existing@[k as int]@);
        if existing[k].url.eq(u) {
            return Some(&existing[k]);
        }
        k = k + 1;
    }
    None
}

/// Decides insert vs. update vs. conflict for every URL of one observation
/// batch, per the decision table of this module; the first occurrence of a
/// URL within the batch wins and later occurrences collapse into it.
pub fn reconcile(
    urls: &Vec<String>,
    status: Option<WikiUrlStatus>,
    existing: &Vec<WikiUrlRecord>,
    origin: Origin,
    now: i64,
) -> (p: ReconciliationPlan)
    ensures
        records_view(p.to_insert@) == plan_inserts(
            urls.deep_view(),
            status,
            records_view(existing@),
            origin,
            now,
            urls@.len() as int,
        ),
        records_view(p.to_update@) == plan_updates(
            urls.deep_view(),
            status,
            records_view(existing@),
            origin,
            now,
            urls@.len() as int,
        ),
        records_view(p.conflicts@) == plan_conflicts(
            urls.deep_view(),
            status,
            records_view(existing@),
            origin,
            now,
            urls@.len() as int,
        ),
{
    let ghost us = urls.deep_view();
    let ghost ex = records_view(existing@);
    let mut to_insert: Vec<WikiUrlRecord> = Vec::new();
    let mut to_update: Vec<WikiUrlRecord> = Vec::new();
    let mut conflicts: Vec<WikiUrlRecord> = Vec::new();
    let mut i: usize = 0;
    while i < urls.len()
        invariant
            0 <= i <= urls@.len(),
            us == urls.deep_view(),
            ex == records_view(existing@),
            records_view(to_insert@) == plan_inserts(us, status, ex, origin, now, i as int),
            records_view(to_update@) == plan_updates(us, status, ex, origin, now, i as int),
            records_view(conflicts@) == plan_conflicts(us, status, ex, origin, now, i as int),
        decreases urls@.len() - i,
    {
        let first = first_occurrence(urls, i);
        if first {
            match find_record_exec(existing, &urls[i]) {
                Some(rec) => {
                    match status {
                        Some(WikiUrlStatus::Added) | Some(WikiUrlStatus::Removed) => {
                            let mut upd = rec.duplicate();
                            upd.status = if status == Some(WikiUrlStatus::Added) {
                                WikiUrlStatus::Added
                            } else {
                                WikiUrlStatus::Removed
                            };
                            upd.user_id = Some(origin.user_id);
                            upd.message_id = Some(origin.message_id);
                            upd.channel_id = Some(origin.channel_id);
                            upd.guild_id = origin.guild_id;
                            upd.updated_at = now;
                            assert(upd@ == mk_update(find_record(ex, us[i as int])->0, status->0, origin, now));
                            to_update.push(upd);
                            assert(records_view(to_update@) =~= plan_updates(us, status, ex, origin, now, i + 1));
                            assert(records_view(to_insert@) =~= plan_inserts(us, status, ex, origin, now, i + 1));
                            assert(records_view(conflicts@) =~= plan_conflicts(us, status, ex, origin, now, i + 1));
                        },
                        _ => {
                            let dup = rec.duplicate();
                            conflicts.push(dup);
                            assert(records_view(conflicts@) =~= plan_conflicts(us, status, ex, origin, now, i + 1));
                            assert(records_view(to_insert@) =~= plan_inserts(us, status, ex, origin, now, i + 1));
                            assert(records_view(to_update@) =~= plan_updates(us, status, ex, origin, now, i + 1));
                        },
                    }
                },
                None => {
                    match status {
                        Some(st) => {
                            let rec = WikiUrlRecord {
                                url: urls[i].clone(),
                                name: None,
                                status: st,
                                user_id: Some(origin.user_id),
                                message_id: Some(origin.message_id),
                                channel_id: Some(origin.channel_id),
                                guild_id: origin.guild_id,
                                created_at: now,
                                updated_at: now,
                            };
                            assert(rec@ == mk_insert(us[i as int], st, origin, now));
                            to_insert.push(rec);
                            assert(records_view(to_insert@) =~= plan_inserts(us, status, ex, origin, now, i + 1));
                            assert(records_view(to_update@) =~= plan_updates(us, status, ex, origin, now, i + 1));
                            assert(records_view(conflicts@) =~= plan_conflicts(us, status, ex, origin, now, i + 1));
                        },
                        None => {
                            assert(records_view(to_insert@) =~= plan_inserts(us, status, ex, origin, now, i + 1));
                            assert(records_view(to_update@) =~= plan_updates(us, status, ex, origin, now, i + 1));
                            assert(records_view(conflicts@) =~= plan_conflicts(us, status, ex, origin, now, i + 1));
                        },
                    }
                },
            }
        } else {
            assert(records_view(to_insert@) =~= plan_inserts(us, status, ex, origin, now, i + 1));
            assert(records_view(to_update@) =~= plan_updates(us, status, ex, origin, now, i + 1));
            assert(records_view(conflicts@) =~= plan_conflicts(us, status, ex, origin, now, i + 1));
        }
        i = i + 1;
    }
    ReconciliationPlan { to_insert, to_update, conflicts }
}

/// A `Pending` observation is non-destructive: whatever the batch and the
/// store hold, it never updates a record in place, and a URL that already
/// has a record (in any status) yields a conflict report entry instead.
pub proof fn lemma_pending_non_destructive(
    urls: Seq<Seq<char>>,
    ex: Seq<RecordView>,
    org: Origin,
    now: i64,
    n: int,
)
    ensures
        plan_updates(urls, Some(WikiUrlStatus::Pending), ex, org, now, n) == Seq::<
            RecordView,
        >::empty(),
        forall|i: int|
            0 <= i < n && is_first(urls, i) && find_record(ex, urls[i]) is Some ==> plan_conflicts(
                urls,
                Some(WikiUrlStatus::Pending),
                ex,
                org,
                now,
                n,
            ).contains(find_record(ex, urls[i])->0),
    decreases n,
{
    if n > 0 {
        lemma_pending_non_destructive(urls, ex, org, now, n - 1);
        let prev = plan_conflicts(urls, Some(WikiUrlStatus::Pending), ex, org, now, n - 1);
        let cur = plan_conflicts(urls, Some(WikiUrlStatus::Pending), ex, org, now, n);
        assert forall|i: int|
            0 <= i < n && is_first(urls, i) && find_record(ex, urls[i]) is Some implies cur.contains(
            find_record(ex, urls[i])->0,
        ) by {
            if i < n - 1 {
                assert(prev.contains(find_record(ex, urls[i])->0));
                let k = choose|k: int| 0 <= k < prev.len() && prev[k] == find_record(
                    ex,
                    urls[i],
                )->0;
                if prev.len() < cur.len() {
                    assert(cur[k] == prev[k]);
                } else {
                    assert(cur == prev);
                }
            } else {
                assert(cur.last() == find_record(ex, urls[i])->0);
            }
        }
    }
}

/// An `Added` or `Removed` observation against one existing record
/// overwrites its status and refreshes its origin, keeping its identity and
/// creation time; nothing is inserted and nothing is reported as a
/// conflict.
pub proof fn lemma_authoritative_overwrite(
    u: Seq<char>,
    st: WikiUrlStatus,
    ex: Seq<RecordView>,
    org: Origin,
    now: i64,
)
    requires
        st == WikiUrlStatus::Added || st == WikiUrlStatus::Removed,
        find_record(ex, u) is Some,
    ensures
        plan_updates(seq![u], Some(st), ex, org, now, 1) == seq![
            mk_update(find_record(ex, u)->0, st, org, now),
        ],
        plan_inserts(seq![u], Some(st), ex, org, now, 1) == Seq::<RecordView>::empty(),
        plan_conflicts(seq![u], Some(st), ex, org, now, 1) == Seq::<RecordView>::empty(),
        mk_update(find_record(ex, u)->0, st, org, now).status == st,
        mk_update(find_record(ex, u)->0, st, org, now).user_id == Some(org.user_id),
        mk_update(find_record(ex, u)->0, st, org, now).message_id == Some(org.message_id),
        mk_update(find_record(ex, u)->0, st, org, now).channel_id == Some(org.channel_id),
        mk_update(find_record(ex, u)->0, st, org, now).guild_id == org.guild_id,
        mk_update(find_record(ex, u)->0, st, org, now).updated_at == now,
        mk_update(find_record(ex, u)->0, st, org, now).url == find_record(ex, u)->0.url,
        mk_update(find_record(ex, u)->0, st, org, now).created_at == find_record(
            ex,
            u,
        )->0.created_at,
{
    assert(seq![u][0] == u);
    assert(plan_updates(seq![u], Some(st), ex, org, now, 0) == Seq::<RecordView>::empty());
    assert(plan_updates(seq![u], Some(st), ex, org, now, 1) =~= seq![
        mk_update(find_record(ex, u)->0, st, org, now),
    ]);
    assert(plan_inserts(seq![u], Some(st), ex, org, now, 0) == Seq::<RecordView>::empty());
    assert(plan_conflicts(seq![u], Some(st), ex, org, now, 0) == Seq::<RecordView>::empty());
    assert(plan_inserts(seq![u], Some(st), ex, org, now, 1) =~= Seq::<RecordView>::empty());
    assert(plan_conflicts(seq![u], Some(st), ex, org, now, 1) =~= Seq::<RecordView>::empty());
}

} // verus!

verus! {

/// A URL nobody persisted yet always plans exactly one insert, whatever
/// classified observation saw it: the record every concurrent
/// reconciliation of that URL will race to insert.
pub proof fn lemma_fresh_url_plans_one_insert(
    u: Seq<char>,
    st: WikiUrlStatus,
    ex: Seq<RecordView>,
    org: Origin,
    now: i64,
)
    requires
        find_record(ex, u) is None,
    ensures
        plan_inserts(seq![u], Some(st), ex, org, now, 1) == seq![mk_insert(u, st, org, now)],
        plan_updates(seq![u], Some(st), ex, org, now, 1) == Seq::<RecordView>::empty(),
        plan_conflicts(seq![u], Some(st), ex, org, now, 1) == Seq::<RecordView>::empty(),
        mk_insert(u, st, org, now).url == u,
{
    assert(seq![u][0] == u);
    assert(plan_inserts(seq![u], Some(st), ex, org, now, 0) == Seq::<RecordView>::empty());
    assert(plan_updates(seq![u], Some(st), ex, org, now, 0) == Seq::<RecordView>::empty());
    assert(plan_conflicts(seq![u], Some(st), ex, org, now, 0) == Seq::<RecordView>::empty());
    assert(plan_inserts(seq![u], Some(st), ex, org, now, 1) =~= seq![mk_insert(u, st, org, now)]);
    assert(plan_updates(seq![u], Some(st), ex, org, now, 1) =~= Seq::<RecordView>::empty());
    assert(plan_conflicts(seq![u], Some(st), ex, org, now, 1) =~= Seq::<RecordView>::empty());
}

} // verus!
