//! The feed entry deduplicator and delivery planner.
//!
//! Fetched entries are attempted as inserts keyed by `(feed_id, entry_id)`;
//! only those that did not already exist are "new". New entries are ordered
//! oldest first by published timestamp (entries without one count as
//! newest), capped to a configured maximum per check, and delivered in that
//! order: a chronological timeline rather than reverse feed order.
use vstd::prelude::*;

use vstd::seq_lib::group_to_multiset_ensures;
use vstd::seq_lib::lemma_multiset_commutative;

use crate::feeds::{entries_view, FeedEntryRecord, FeedEntryView};

verus! {

/// Whether an entry with the dedup key `(feed, eid)` occurs at or after `i`.
pub open spec fn entry_present_from(
    es: Seq<FeedEntryView>,
    feed: u128,
    eid: Seq<char>,
    i: int,
) -> bool
    decreases es.len() - i,
{
    if i < 0 || i >= es.len() {
        false
    } else if es[i].feed_id == feed && es[i].entry_id == eid {
        true
    } else {
        entry_present_from(es, feed, eid, i + 1)
    }
}

/// Whether the dedup key `(feed, eid)` is already present.
pub open spec fn entry_present(es: Seq<FeedEntryView>, feed: u128, eid: Seq<char>) -> bool {
    entry_present_from(es, feed, eid, 0)
}

/// What one insert does: a conflicting key is silently dropped.
pub open spec fn apply_entry_insert(es: Seq<FeedEntryView>, e: FeedEntryView) -> Seq<
    FeedEntryView,
> {
    if entry_present(es, e.feed_id, e.entry_id) {
        es
    } else {
        es.push(e)
    }
}

/// What inserting the first `n` entries of a batch does, in order.
pub open spec fn apply_entry_inserts(
    es: Seq<FeedEntryView>,
    batch: Seq<FeedEntryView>,
    n: int,
) -> Seq<FeedEntryView>
    decreases n,
{
    if n <= 0 {
        es
    } else {
        apply_entry_insert(apply_entry_inserts(es, batch, n - 1), batch[n - 1])
    }
}

/// The subsequence of the batch that actually inserts: the new entries. An
/// entry repeated within one batch is new only at its first occurrence.
pub open spec fn new_entries_spec(
    es: Seq<FeedEntryView>,
    batch: Seq<FeedEntryView>,
    n: int,
) -> Seq<FeedEntryView>
    decreases n,
{
    if n <= 0 {
        Seq::empty()
    } else {
        let r = new_entries_spec(es, batch, n - 1);
        if entry_present(
            apply_entry_inserts(es, batch, n - 1),
            batch[n - 1].feed_id,
            batch[n - 1].entry_id,
        ) {
            r
        } else {
            r.push(batch[n - 1])
        }
    }
}

proof fn lemma_present_push(
    es: Seq<FeedEntryView>,
    e: FeedEntryView,
    feed: u128,
    eid: Seq<char>,
    i: int,
)
    requires
        0 <= i <= es.len(),
    ensures
        entry_present_from(es.push(e), feed, eid, i) <==> (entry_present_from(es, feed, eid, i) || (
        e.feed_id == feed && e.entry_id == eid)),
    decreases es.len() - i,
{
    if i < es.len() {
        assert(es.push(e)[i] == es[i]);
        lemma_present_push(es, e, feed, eid, i + 1);
    } else {
        assert(es.push(e)[i] == e);
        assert(!entry_present_from(es.push(e), feed, eid, i + 1));
        assert(!entry_present_from(es, feed, eid, i));
    }
}

/// Inserting never removes a key.
proof fn lemma_insert_monotone(es: Seq<FeedEntryView>, e: FeedEntryView, feed: u128, eid: Seq<char>)
    ensures
        entry_present(es, feed, eid) ==> entry_present(apply_entry_insert(es, e), feed, eid),
        entry_present(apply_entry_insert(es, e), feed, eid) <==> (entry_present(es, feed, eid) || (
        !entry_present(es, e.feed_id, e.entry_id) && e.feed_id == feed && e.entry_id == eid)),
{
    if !entry_present(es, e.feed_id, e.entry_id) {
        lemma_present_push(es, e, feed, eid, 0);
    }
}

/// After a batch is ingested, every key of its first `n` entries is present.
proof fn lemma_batch_keys_present(
    es: Seq<FeedEntryView>,
    batch: Seq<FeedEntryView>,
    n: int,
    i: int,
)
    requires
        0 <= i < n <= batch.len(),
    ensures
        entry_present(apply_entry_inserts(es, batch, n), batch[i].feed_id, batch[i].entry_id),
    decreases n,
{
    let prev = apply_entry_inserts(es, batch, n - 1);
    if i == n - 1 {
        lemma_insert_monotone(prev, batch[n - 1], batch[i].feed_id, batch[i].entry_id);
    } else {
        lemma_batch_keys_present(es, batch, n - 1, i);
        lemma_insert_monotone(prev, batch[n - 1], batch[i].feed_id, batch[i].entry_id);
    }
}

/// Dedup is exact: re-ingesting a batch whose keys are all already present
/// — in particular, the identical batch a second time — yields zero new
/// entries, and changes nothing.
pub proof fn lemma_reingest_yields_nothing(
    es: Seq<FeedEntryView>,
    batch: Seq<FeedEntryView>,
    n: int,
)
    requires
        0 <= n <= batch.len(),
        forall|i: int|
            0 <= i < batch.len() ==> entry_present(
                es,
                #[trigger] batch[i].feed_id,
                batch[i].entry_id,
            ),
    ensures
        new_entries_spec(es, batch, n) == Seq::<FeedEntryView>::empty(),
        apply_entry_inserts(es, batch, n) == es,
    decreases n,
{
    if n > 0 {
        lemma_reingest_yields_nothing(es, batch, n - 1);
    }
}

/// Dedup is exact, second form: ingesting any batch and then ingesting it
/// again yields zero new entries the second time.
pub proof fn lemma_second_ingest_empty(es: Seq<FeedEntryView>, batch: Seq<FeedEntryView>)
    ensures
        new_entries_spec(
            apply_entry_inserts(es, batch, batch.len() as int),
            batch,
            batch.len() as int,
        ) == Seq::<FeedEntryView>::empty(),
{
    let es2 = apply_entry_inserts(es, batch, batch.len() as int);
    assert forall|i: int| 0 <= i < batch.len() implies entry_present(
        es2,
        #[trigger] batch[i].feed_id,
        batch[i].entry_id,
    ) by {
        lemma_batch_keys_present(es, batch, batch.len() as int, i);
    }
    lemma_reingest_yields_nothing(es2, batch, batch.len() as int);
}

/// Chronological order on entries: by published timestamp, entries without
/// one counting as newest.
pub open spec fn le_pub(a: FeedEntryView, b: FeedEntryView) -> bool {
    match (a.published_at, b.published_at) {
        (Some(x), Some(y)) => x <= y,
        (Some(_), None) => true,
        (None, Some(_)) => false,
        (None, None) => true,
    }
}

/// Stable insertion of `x` into `v`: after every element that sorts no
/// later than `x`.
pub open spec fn insert_sorted(v: Seq<FeedEntryView>, x: FeedEntryView) -> Seq<FeedEntryView>
    decreases v.len(),
{
    if v.len() == 0 {
        seq![x]
    } else if le_pub(v[0], x) {
        seq![v[0]] + insert_sorted(v.drop_first(), x)
    } else {
        seq![x] + v
    }
}

/// Stable insertion sort of the first `n` entries by published timestamp.
pub open spec fn sort_entries(v: Seq<FeedEntryView>, n: int) -> Seq<FeedEntryView>
    decreases n,
{
    if n <= 0 {
        Seq::empty()
    } else {
        insert_sorted(sort_entries(v, n - 1), v[n - 1])
    }
}

/// Every pair of positions is in chronological order.
pub open spec fn sorted_entries(v: Seq<FeedEntryView>) -> bool {
    forall|i: int, j: int| 0 <= i < j < v.len() ==> le_pub(v[i], v[j])
}

proof fn lemma_insert_sorted_ensures(v: Seq<FeedEntryView>, x: FeedEntryView)
    requires
        sorted_entries(v),
    ensures
        sorted_entries(insert_sorted(v, x)),
        insert_sorted(v, x).to_multiset() == v.to_multiset().insert(x),
        insert_sorted(v, x).len() == v.len() + 1,
    decreases v.len(),
{
    broadcast use group_to_multiset_ensures;

    if v.len() == 0 {
        assert(seq![x] =~= Seq::<FeedEntryView>::empty().push(x));
        assert(insert_sorted(v, x).to_multiset() =~= v.to_multiset().insert(x));
    } else if le_pub(v[0], x) {
        let d = v.drop_first();
        assert(sorted_entries(d)) by {
            assert forall|i: int, j: int| 0 <= i < j < d.len() implies le_pub(d[i], d[j]) by {
                assert(d[i] == v[i + 1]);
                assert(d[j] == v[j + 1]);
            }
        }
        lemma_insert_sorted_ensures(d, x);
        let rest = insert_sorted(d, x);
        let r = seq![v[0]] + rest;
        assert(insert_sorted(v, x) == r);
        assert forall|jj: int| 1 <= jj < r.len() implies le_pub(r[0], r[jj]) by {
            let y = r[jj];
            assert(rest[jj - 1] == y);
            assert(rest.contains(y));
            assert(rest.to_multiset().count(y) > 0);
            if d.to_multiset().count(y) > 0 {
                assert(d.contains(y));
                let k = choose|k: int| 0 <= k < d.len() && d[k] == y;
                assert(d[k] == v[k + 1]);
                assert(le_pub(v[0], v[k + 1]));
            } else {
                assert(y == x);
            }
        }
        assert(sorted_entries(r)) by {
            assert forall|i: int, j: int| 0 <= i < j < r.len() implies le_pub(r[i], r[j]) by {
                if i == 0 {
                    assert(le_pub(r[0], r[j]));
                } else {
                    assert(r[i] == rest[i - 1]);
                    assert(r[j] == rest[j - 1]);
                }
            }
        }
        assert(r.to_multiset() =~= v.to_multiset().insert(x)) by {
            lemma_multiset_commutative(seq![v[0]], rest);
            assert(v =~= seq![v[0]] + d);
            lemma_multiset_commutative(seq![v[0]], d);
            assert(seq![v[0]].to_multiset() =~= Seq::<FeedEntryView>::empty().push(
                v[0],
            ).to_multiset());
        }
    } else {
        let r = seq![x] + v;
        assert(insert_sorted(v, x) == r);
        assert forall|jj: int| 1 <= jj < r.len() implies le_pub(r[0], r[jj]) by {
            assert(r[jj] == v[jj - 1]);
            assert(le_pub(x, v[0]));
            if jj > 1 {
                assert(le_pub(v[0], v[jj - 1]));
            }
        }
        assert(sorted_entries(r)) by {
            assert forall|i: int, j: int| 0 <= i < j < r.len() implies le_pub(r[i], r[j]) by {
                if i == 0 {
                    assert(le_pub(r[0], r[j]));
                } else {
                    assert(r[i] == v[i - 1]);
                    assert(r[j] == v[j - 1]);
                }
            }
        }
        assert(r.to_multiset() =~= v.to_multiset().insert(x)) by {
            lemma_multiset_commutative(seq![x], v);
            assert(seq![x].to_multiset() =~= Seq::<FeedEntryView>::empty().push(x).to_multiset());
        }
    }
}

/// Delivery ordering: the sort really sorts. Its result is chronologically
/// ordered and holds exactly the first `n` input entries.
pub proof fn lemma_sort_entries_ensures(v: Seq<FeedEntryView>, n: int)
    requires
        0 <= n <= v.len(),
    ensures
        sorted_entries(sort_entries(v, n)),
        sort_entries(v, n).to_multiset() == v.take(n).to_multiset(),
        sort_entries(v, n).len() == n,
    decreases n,
{
    broadcast use group_to_multiset_ensures;

    if n == 0 {
        assert(v.take(0) =~= Seq::<FeedEntryView>::empty());
    } else {
        lemma_sort_entries_ensures(v, n - 1);
        lemma_insert_sorted_ensures(sort_entries(v, n - 1), v[n - 1]);
        assert(v.take(n) =~= v.take(n - 1).push(v[n - 1]));
    }
}

/// A prefix of a sorted sequence is sorted: capping keeps the order.
pub proof fn lemma_sorted_take(v: Seq<FeedEntryView>, k: int)
    requires
        sorted_entries(v),
        0 <= k <= v.len(),
    ensures
        sorted_entries(v.take(k)),
{
    assert forall|i: int, j: int| 0 <= i < j < v.take(k).len() implies le_pub(
        v.take(k)[i],
        v.take(k)[j],
    ) by {
        assert(v.take(k)[i] == v[i]);
        assert(v.take(k)[j] == v[j]);
    }
}

/// An in-memory model of the feed entry table.
pub struct EntryStore {
    pub entries: Vec<FeedEntryRecord>,
}

fn entry_present_exec(es: &Vec<FeedEntryRecord>, feed: u128, eid: &String) -> (r: bool)
    ensures
        r == entry_present(entries_view(es@), feed, eid@),
{
    let ghost ev = entries_view(es@);
    let mut k: usize = 0;
    while k < es.len()
        invariant
            0 <= k <= es@.len(),
            ev == entries_view(es@),
            ev.len() == es@.len(),
            entry_present_from(ev, feed, eid@, 0) == entry_present_from(ev, feed, eid@, k as int),
        decreases es@.len() - k,
    {
        assert(ev[k as int] == es@[k as int]@);
        if es[k].feed_id == feed && es[k].entry_id.eq(eid) {
            return true;
        }
        k = k + 1;
    }
    false
}

impl EntryStore {
    pub open spec fn view_entries(&self) -> Seq<FeedEntryView> {
        entries_view(self.entries@)
    }

    /// An empty table.
    pub fn new() -> (r: EntryStore)
        ensures
            r.view_entries() == Seq::<FeedEntryView>::empty(),
    {
        let r = EntryStore { entries: Vec::new() };
        proof {
            assert(r.view_entries() =~= Seq::<FeedEntryView>::empty());
        }
        r
    }

    /// Inserts a batch keyed by `(feed_id, entry_id)`, ignoring conflicts,
    /// and returns exactly the entries that were new.
    pub fn insert_returning(&mut self, batch: &Vec<FeedEntryRecord>) -> (new_entries: Vec<
        FeedEntryRecord,
    >)
        ensures
            final(self).view_entries() == apply_entry_inserts(
                old(self).view_entries(),
                entries_view(batch@),
                batch@.len() as int,
            ),
            entries_view(new_entries@) == new_entries_spec(
                old(self).view_entries(),
                entries_view(batch@),
                batch@.len() as int,
            ),
    {
        let ghost base = old(self).view_entries();
        let ghost bv = entries_view(batch@);
        let mut new_entries: Vec<FeedEntryRecord> = Vec::new();
        let mut i: usize = 0;
        let n = batch.len();
        while i < n
            invariant
                0 <= i <= n,
                n == batch@.len(),
                bv == entries_view(batch@),
                bv.len() == n,
                self.view_entries() == apply_entry_inserts(base, bv, i as int),
                entries_view(new_entries@) == new_entries_spec(base, bv, i as int),
            decreases n - i,
        {
            let e = batch[i].duplicate();
            assert(e@ == bv[i as int]);
            let present = entry_present_exec(&self.entries, e.feed_id, &e.entry_id);
            if present {
                assert(entries_view(new_entries@) =~= new_entries_spec(base, bv, i + 1));
            } else {
                let e2 = e.duplicate();
                self.entries.push(e);
                new_entries.push(e2);
                proof {
                    assert(self.view_entries() =~= apply_entry_inserts(base, bv, i as int).push(
                        bv[i as int],
                    ));
                    assert(entries_view(new_entries@) =~= new_entries_spec(base, bv, i + 1));
                }
            }
            i = i + 1;
        }
        new_entries
    }
}

fn le_pub_exec(a: &FeedEntryRecord, b: &FeedEntryRecord) -> (r: bool)
    ensures
        r == le_pub(a@, b@),
{
    match (a.published_at, b.published_at) {
        (Some(x), Some(y)) => x <= y,
        (Some(_), None) => true,
        (None, Some(_)) => false,
        (None, None) => true,
    }
}

proof fn lemma_insert_sorted_at(v: Seq<FeedEntryView>, x: FeedEntryView, p: int)
    requires
        0 <= p <= v.len(),
        forall|m: int| 0 <= m < p ==> le_pub(v[m], x),
        p < v.len() ==> !le_pub(v[p], x),
    ensures
        insert_sorted(v, x) == v.take(p) + seq![x] + v.skip(p),
    decreases p,
{
    if v.len() == 0 {
        assert(insert_sorted(v, x) =~= v.take(p) + seq![x] + v.skip(p));
    } else if p == 0 {
        assert(v.take(0) =~= Seq::<FeedEntryView>::empty());
        assert(v.skip(0) =~= v);
        assert(insert_sorted(v, x) =~= v.take(p) + seq![x] + v.skip(p));
    } else {
        let d = v.drop_first();
        assert(le_pub(v[0], x));
        assert forall|m: int| 0 <= m < p - 1 implies le_pub(d[m], x) by {
            assert(d[m] == v[m + 1]);
        }
        assert(p - 1 < d.len() ==> !le_pub(d[p - 1], x));
        lemma_insert_sorted_at(d, x, p - 1);
        assert(insert_sorted(v, x) == seq![v[0]] + (d.take(p - 1) + seq![x] + d.skip(p - 1)));
        assert(seq![v[0]] + (d.take(p - 1) + seq![x] + d.skip(p - 1)) =~= v.take(p) + seq![x]
            + v.skip(p));
    }
}

/// Sorts entries chronologically, oldest first; entries without a published
/// timestamp go last, and entries that compare equal keep their order.
pub fn sort_by_published(entries: &Vec<FeedEntryRecord>) -> (r: Vec<FeedEntryRecord>)
    ensures
        entries_view(r@) == sort_entries(entries_view(entries@), entries@.len() as int),
{
    let ghost ev = entries_view(entries@);
    let mut out: Vec<FeedEntryRecord> = Vec::new();
    let mut i: usize = 0;
    let n = entries.len();
    while i < n
        invariant
            0 <= i <= n,
            n == entries@.len(),
            ev == entries_view(entries@),
            ev.len() == n,
            entries_view(out@) == sort_entries(ev, i as int),
            out@.len() == i,
        decreases n - i,
    {
        let x = entries[i].duplicate();
        assert(x@ == ev[i as int]);
        let ghost before = entries_view(out@);
        let mut p: usize = 0;
        while p < out.len() && le_pub_exec(&out[p], &x)
            invariant
                0 <= p <= out@.len(),
                before == entries_view(out@),
                before.len() == out@.len(),
                x@ == ev[i as int],
                forall|m: int| 0 <= m < p ==> le_pub(before[m], x@),
            decreases out@.len() - p,
        {
            assert(before[p as int] == out@[p as int]@);
            p = p + 1;
        }
        proof {
            if p < out@.len() {
                assert(before[p as int] == out@[p as int]@);
            }
            lemma_insert_sorted_at(before, x@, p as int);
        }
        out.insert(p, x);
        proof {
            assert(entries_view(out@) =~= before.take(p as int) + seq![ev[i as int]] + before.skip(
                p as int,
            ));
            assert(entries_view(out@) =~= sort_entries(ev, i + 1));
        }
        i = i + 1;
    }
    out
}

/// Plans one feed check's delivery: ingests the fetched batch, orders the
/// new entries chronologically, and caps them to `max_entries` per check
/// (the oldest survive the cap). The result is the list to post, in order.
pub fn ingest(store: &mut EntryStore, batch: &Vec<FeedEntryRecord>, max_entries: usize) -> (to_post:
    Vec<FeedEntryRecord>)
    ensures
        final(store).view_entries() == apply_entry_inserts(
            old(store).view_entries(),
            entries_view(batch@),
            batch@.len() as int,
        ),
        entries_view(to_post@) == ({
            let ns = new_entries_spec(
                old(store).view_entries(),
                entries_view(batch@),
                batch@.len() as int,
            );
            sort_entries(ns, ns.len() as int).take(
                if max_entries as int <= ns.len() {
                    max_entries as int
                } else {
                    ns.len() as int
                },
            )
        }),
{
    let newly = store.insert_returning(batch);
    let ghost ns = entries_view(newly@);
    proof {
        lemma_sort_entries_ensures(ns, ns.len() as int);
    }
    let mut sorted = sort_by_published(&newly);
    let k = if max_entries <= sorted.len() {
        max_entries
    } else {
        sorted.len()
    };
    sorted.truncate(k);
    proof {
        assert(entries_view(sorted@) =~= sort_entries(ns, ns.len() as int).take(k as int));
    }
    sorted
}

} // verus!

verus! {

/// The debug-only force-post plan: dedup is bypassed entirely and the most
/// recent `max_entries` fetched entries are re-posted, oldest first. This
/// path is gated behind the `debug_force_post` setting and must never be
/// the default.
pub fn force_post_plan(batch: &Vec<FeedEntryRecord>, max_entries: usize) -> (to_post: Vec<
    FeedEntryRecord,
>)
    ensures
        entries_view(to_post@) == ({
            let bv = entries_view(batch@);
            let ss = sort_entries(bv, bv.len() as int);
            ss.skip(
                if max_entries as int <= ss.len() {
                    ss.len() - max_entries as int
                } else {
                    0int
                },
            )
        }),
{
    let ghost bv = entries_view(batch@);
    proof {
        lemma_sort_entries_ensures(bv, bv.len() as int);
    }
    let mut sorted = sort_by_published(batch);
    let k = if max_entries <= sorted.len() {
        sorted.len() - max_entries
    } else {
        0
    };
    let tail = sorted.split_off(k);
    proof {
        assert(entries_view(tail@) =~= sort_entries(bv, bv.len() as int).skip(k as int));
    }
    tail
}

} // verus!
