//! A verified model of the store's semantics for wiki URL records: inserts
//! that silently ignore a unique-URL conflict, in-place updates keyed by
//! URL, and the batched writer that splits large inserts into size-bounded
//! chunks, one transaction each.
//!
//! The real relational store is an external collaborator; correctness under
//! concurrent writers rests on its unique constraint, whose behaviour this
//! model states: inserting an already-present key changes nothing, so any
//! interleaving of conflicting inserts persists the record exactly once.
use vstd::prelude::*;

use crate::reconcile::{find_record, find_record_from};
use crate::records::{records_view, RecordView, WikiUrlRecord};

verus! {

/// Whether a record with URL `u` is present.
pub open spec fn store_contains(rs: Seq<RecordView>, u: Seq<char>) -> bool {
    find_record(rs, u) is Some
}

/// What one insert-ignore does: a conflicting insert is dropped.
pub open spec fn apply_insert_ignore(rs: Seq<RecordView>, r: RecordView) -> Seq<RecordView> {
    if store_contains(rs, r.url) {
        rs
    } else {
        rs.push(r)
    }
}

/// What inserting the first `n` records of a batch does, in order.
pub open spec fn apply_inserts(rs: Seq<RecordView>, batch: Seq<RecordView>, n: int) -> Seq<
    RecordView,
>
    decreases n,
{
    if n <= 0 {
        rs
    } else {
        apply_insert_ignore(apply_inserts(rs, batch, n - 1), batch[n - 1])
    }
}

/// How many of the first `n` batch records actually insert.
pub open spec fn inserted_count(rs: Seq<RecordView>, batch: Seq<RecordView>, n: int) -> int
    decreases n,
{
    if n <= 0 {
        0
    } else {
        inserted_count(rs, batch, n - 1) + if store_contains(
            apply_inserts(rs, batch, n - 1),
            batch[n - 1].url,
        ) {
            0int
        } else {
            1int
        }
    }
}

/// Number of records with URL `u`, scanning from `i`.
pub open spec fn count_url_from(rs: Seq<RecordView>, u: Seq<char>, i: int) -> int
    decreases rs.len() - i,
{
    if i < 0 || i >= rs.len() {
        0
    } else {
        (if rs[i].url == u {
            1int
        } else {
            0int
        }) + count_url_from(rs, u, i + 1)
    }
}

/// Number of records with URL `u`.
pub open spec fn count_url(rs: Seq<RecordView>, u: Seq<char>) -> int {
    count_url_from(rs, u, 0)
}

/// The store's invariant: at most one record per canonical URL.
pub open spec fn store_wf(rs: Seq<RecordView>) -> bool {
    forall|i: int, j: int| 0 <= i < j < rs.len() ==> rs[i].url != rs[j].url
}

proof fn lemma_count_nonneg(rs: Seq<RecordView>, u: Seq<char>, i: int)
    ensures
        count_url_from(rs, u, i) >= 0,
    decreases rs.len() - i,
{
    if 0 <= i < rs.len() {
        lemma_count_nonneg(rs, u, i + 1);
    }
}

proof fn lemma_contains_iff_count(rs: Seq<RecordView>, u: Seq<char>, i: int)
    ensures
        (find_record_from(rs, u, i) is Some) <==> count_url_from(rs, u, i) >= 1,
    decreases rs.len() - i,
{
    lemma_count_nonneg(rs, u, i);
    if 0 <= i < rs.len() {
        lemma_contains_iff_count(rs, u, i + 1);
        lemma_count_nonneg(rs, u, i + 1);
    }
}

proof fn lemma_count_push(rs: Seq<RecordView>, r: RecordView, u: Seq<char>, i: int)
    requires
        0 <= i <= rs.len(),
    ensures
        count_url_from(rs.push(r), u, i) == count_url_from(rs, u, i) + if r.url == u {
            1int
        } else {
            0int
        },
    decreases rs.len() - i,
{
    if i < rs.len() {
        assert(rs.push(r)[i] == rs[i]);
        lemma_count_push(rs, r, u, i + 1);
    } else {
        assert(rs.push(r)[i] == r);
        assert(count_url_from(rs.push(r), u, i + 1) == 0);
        assert(count_url_from(rs, u, i) == 0);
    }
}

/// Insert-ignore never lets a URL's record count pass 1, and a fresh URL
/// lands exactly once.
proof fn lemma_insert_ignore_count(rs: Seq<RecordView>, r: RecordView, u: Seq<char>)
    ensures
        r.url == u && store_contains(rs, u) ==> count_url(apply_insert_ignore(rs, r), u)
            == count_url(rs, u),
        r.url == u && !store_contains(rs, u) ==> count_url(apply_insert_ignore(rs, r), u)
            == count_url(rs, u) + 1,
        r.url != u ==> count_url(apply_insert_ignore(rs, r), u) == count_url(rs, u),
{
    if !store_contains(rs, r.url) {
        lemma_count_push(rs, r, u, 0);
    }
}

/// However many times the same new URL is inserted concurrently — each
/// reconciliation saw no record and planned an insert — the store ends up
/// with exactly one record for it: the unique constraint resolves the race.
pub proof fn lemma_concurrent_inserts_once(
    rs: Seq<RecordView>,
    batch: Seq<RecordView>,
    u: Seq<char>,
    n: int,
)
    requires
        forall|i: int| 0 <= i < batch.len() ==> batch[i].url == u,
        !store_contains(rs, u),
        1 <= n <= batch.len(),
    ensures
        count_url(apply_inserts(rs, batch, n), u) == 1,
    decreases n,
{
    lemma_contains_iff_count(rs, u, 0);
    lemma_count_nonneg(rs, u, 0);
    if n == 1 {
        lemma_insert_ignore_count(rs, batch[0], u);
    } else {
        lemma_concurrent_inserts_once(rs, batch, u, n - 1);
        let prev = apply_inserts(rs, batch, n - 1);
        lemma_contains_iff_count(prev, u, 0);
        lemma_insert_ignore_count(prev, batch[n - 1], u);
    }
}

/// Insert-ignore preserves the uniqueness invariant.
pub proof fn lemma_insert_ignore_wf(rs: Seq<RecordView>, r: RecordView)
    requires
        store_wf(rs),
    ensures
        store_wf(apply_insert_ignore(rs, r)),
{
    if !store_contains(rs, r.url) {
        lemma_contains_iff_count(rs, r.url, 0);
        let rs2 = rs.push(r);
        lemma_count_nonneg(rs, r.url, 0);
        assert forall|i: int, j: int| 0 <= i < j < rs2.len() implies rs2[i].url != rs2[j].url by {
            if j == rs.len() && rs2[i].url == r.url {
                assert(rs2[i] == rs[i]);
                lemma_count_at_index(rs, r.url, i);
            }
        }
    }
}

proof fn lemma_count_at_index(rs: Seq<RecordView>, u: Seq<char>, i: int)
    requires
        0 <= i < rs.len(),
        rs[i].url == u,
    ensures
        count_url_from(rs, u, 0) >= 1,
    decreases i,
{
    lemma_count_from_split(rs, u, 0, i);
}

proof fn lemma_count_from_split(rs: Seq<RecordView>, u: Seq<char>, j: int, i: int)
    requires
        0 <= j <= i < rs.len(),
        rs[i].url == u,
    ensures
        count_url_from(rs, u, j) >= 1,
    decreases i - j,
{
    lemma_count_nonneg(rs, u, j + 1);
    if j < i {
        lemma_count_from_split(rs, u, j + 1, i);
    }
}

/// The chunk size the batched writer uses: how many rows fit one statement
/// under the store's bound-parameter ceiling.
pub fn chunk_size(num_columns: u16) -> (r: usize)
    ensures
        num_columns == 0 ==> r == 0,
        num_columns > 0 ==> r == u16::MAX as usize / num_columns as usize,
{
    if num_columns == 0 {
        0
    } else {
        (u16::MAX / num_columns) as usize
    }
}

/// Number of transactions the batched writer commits for `n` records at
/// chunk size `cs`: one per chunk, the last chunk possibly short.
pub open spec fn chunk_txns(n: int, cs: int) -> int
    decreases n,
{
    if n <= 0 || cs <= 0 {
        0
    } else if n <= cs {
        1
    } else {
        1 + chunk_txns(n - cs, cs)
    }
}

/// The chunk count is the ceiling of `n / cs`.
pub proof fn lemma_chunk_txns_ceil(n: int, cs: int)
    requires
        n >= 0,
        cs >= 1,
    ensures
        chunk_txns(n, cs) == (n + cs - 1) / cs,
    decreases n,
{
    if n == 0 {
        assert((cs - 1) / cs == 0) by (nonlinear_arith)
            requires
                cs >= 1,
        ;
    } else if n <= cs {
        assert((n + cs - 1) / cs == 1) by (nonlinear_arith)
            requires
                1 <= n <= cs,
        ;
    } else {
        lemma_chunk_txns_ceil(n - cs, cs);
        assert((n - cs + cs - 1) / cs + 1 == (n + cs - 1) / cs) by (nonlinear_arith)
            requires
                cs >= 1,
                n > cs,
        ;
    }
}

/// An in-memory model of the wiki URL table: the sequence of its rows.
pub struct UrlStore {
    pub records: Vec<WikiUrlRecord>,
}

impl UrlStore {
    pub open spec fn view_records(&self) -> Seq<RecordView> {
        records_view(self.records@)
    }

    /// An empty table.
    pub fn new() -> (r: UrlStore)
        ensures
            r.view_records() == Seq::<RecordView>::empty(),
    {
        let r = UrlStore { records: Vec::new() };
        proof {
            assert(r.view_records() =~= Seq::<RecordView>::empty());
        }
        r
    }

    /// Inserts one record, ignoring it when its URL is already present.
    /// Returns whether the row landed.
    pub fn insert_ignore(&mut self, rec: WikiUrlRecord) -> (inserted: bool)
        ensures
            final(self).view_records() == apply_insert_ignore(old(self).view_records(), rec@),
            inserted == !store_contains(old(self).view_records(), rec@.url),
    {
        let present = contains_url_exec(&self.records, &rec.url);
        if present {
            false
        } else {
            self.records.push(rec);
            proof {
                assert(self.view_records() =~= apply_insert_ignore(
                    old(self).view_records(),
                    rec@,
                ));
            }
            true
        }
    }

    /// Inserts a batch with insert-ignore semantics, in order. Returns how
    /// many rows actually landed.
    pub fn insert_many_ignore(&mut self, recs: Vec<WikiUrlRecord>) -> (count: usize)
        ensures
            final(self).view_records() == apply_inserts(
                old(self).view_records(),
                records_view(recs@),
                recs@.len() as int,
            ),
            count == inserted_count(
                old(self).view_records(),
                records_view(recs@),
                recs@.len() as int,
            ),
    {
        let ghost base = old(self).view_records();
        let ghost batch = records_view(recs@);
        let mut recs = recs;
        let mut count: usize = 0;
        let mut i: usize = 0;
        let n = recs.len();
        while i < n
            invariant
                0 <= i <= n,
                n == recs@.len(),
                batch == records_view(recs@),
                batch.len() == n,
                self.view_records() == apply_inserts(base, batch, i as int),
                count == inserted_count(base, batch, i as int),
                count <= i,
            decreases n - i,
        {
            let rec = recs[i].duplicate();
            assert(rec@ == batch[i as int]);
            let inserted = self.insert_ignore(rec);
            if inserted {
                count = count + 1;
            }
            i = i + 1;
        }
        count
    }

    /// Replaces the first record with the same URL; a record whose URL is
    /// absent changes nothing.
    pub fn update_record(&mut self, rec: WikiUrlRecord) -> (updated: bool)
        ensures
            final(self).view_records() == apply_update(old(self).view_records(), rec@, 0),
            updated == store_contains(old(self).view_records(), rec@.url),
    {
        let ghost rv = self.view_records();
        let mut k: usize = 0;
        let n = self.records.len();
        while k < n
            invariant
                0 <= k <= n,
                n == self.records@.len(),
                rv == self.view_records(),
                rv == old(self).view_records(),
                rv.len() == n,
                find_record_from(rv, rec@.url, 0) == find_record_from(rv, rec@.url, k as int),
                apply_update(rv, rec@, 0) == apply_update(rv, rec@, k as int),
            decreases n - k,
        {
            assert(rv[k as int] == self.records@[k as int]@);
            if self.records[k].url.eq(&rec.url) {
                self.records.set(k, rec);
                proof {
                    assert(self.view_records() =~= rv.update(k as int, rec@));
                    assert(apply_update(rv, rec@, k as int) == rv.update(k as int, rec@));
                }
                return true;
            }
            k = k + 1;
        }
        proof {
            assert(find_record_from(rv, rec@.url, n as int) is None);
            assert(apply_update(rv, rec@, n as int) == rv);
        }
        false
    }
}

/// What replacing by key does to the rows, scanning from `i`.
pub open spec fn apply_update(rs: Seq<RecordView>, r: RecordView, i: int) -> Seq<RecordView>
    decreases rs.len() - i,
{
    if i < 0 || i >= rs.len() {
        rs
    } else if rs[i].url == r.url {
        rs.update(i, r)
    } else {
        apply_update(rs, r, i + 1)
    }
}

/// Linear presence test by URL.
pub fn contains_url_exec(recs: &Vec<WikiUrlRecord>, u: &String) -> (r: bool)
    ensures
        r == store_contains(records_view(recs@), u@),
{
    let ghost rv = records_view(recs@);
    let mut k: usize = 0;
    while k < recs.len()
        invariant
            0 <= k <= recs@.len(),
            rv == records_view(recs@),
            rv.len() == recs@.len(),
            find_record_from(rv, u@, 0) == find_record_from(rv, u@, k as int),
        decreases recs@.len() - k,
    {
        assert(rv[k as int] == recs@[k as int]@);
        if recs[k].url.eq(u) {
            return true;
        }
        k = k + 1;
    }
    false
}

/// Splits a batch into chunks of at most `cs` records, preserving order:
/// one transaction is committed per chunk, so a partial failure never rolls
/// back earlier chunks.
pub fn chunk_records(recs: Vec<WikiUrlRecord>, cs: usize) -> (chunks: Vec<Vec<WikiUrlRecord>>)
    requires
        cs >= 1,
    ensures
        chunks@.len() == chunk_txns(recs@.len() as int, cs as int),
        forall|i: int| 0 <= i < chunks@.len() ==> 1 <= #[trigger] chunks@[i]@.len() <= cs,
        flatten_chunks(chunks@) == recs@,
{
    let mut rest = recs;
    let mut chunks: Vec<Vec<WikiUrlRecord>> = Vec::new();
    while rest.len() > 0
        invariant
            cs >= 1,
            flatten_chunks(chunks@) + rest@ == recs@,
            forall|i: int| 0 <= i < chunks@.len() ==> 1 <= #[trigger] chunks@[i]@.len() <= cs,
            chunks@.len() + chunk_txns(rest@.len() as int, cs as int) == chunk_txns(
                recs@.len() as int,
                cs as int,
            ),
        decreases rest@.len(),
    {
        let take = if rest.len() > cs {
            cs
        } else {
            rest.len()
        };
        let tail = rest.split_off(take);
        let ghost old_chunks = chunks@;
        let ghost head = rest@;
        chunks.push(rest);
        rest = tail;
        proof {
            assert(chunks@.drop_last() =~= old_chunks);
            assert(chunks@.last()@ == head);
            assert(flatten_chunks(chunks@) =~= flatten_chunks(old_chunks) + head);
            assert(flatten_chunks(chunks@) + rest@ =~= recs@);
        }
    }
    proof {
        assert(flatten_chunks(chunks@) + rest@ =~= flatten_chunks(chunks@));
    }
    chunks
}

/// The chunks, concatenated back.
pub open spec fn flatten_chunks(chunks: Seq<Vec<WikiUrlRecord>>) -> Seq<WikiUrlRecord>
    decreases chunks.len(),
{
    if chunks.len() == 0 {
        Seq::empty()
    } else {
        flatten_chunks(chunks.drop_last()) + chunks.last()@
    }
}

} // verus!

verus! {

/// Records among the first `n` whose URL is one of `urls`, in stored order.
pub open spec fn records_with_urls(rs: Seq<RecordView>, urls: Seq<Seq<char>>, n: int) -> Seq<
    RecordView,
>
    decreases n,
{
    if n <= 0 {
        Seq::empty()
    } else {
        let r = records_with_urls(rs, urls, n - 1);
        if urls.contains(rs[n - 1].url) {
            r.push(rs[n - 1])
        } else {
            r
        }
    }
}

/// What refreshing a list of records does to the rows: each entry of the
/// batch replaces the stored row with its URL, in order.
pub open spec fn apply_updates(rs: Seq<RecordView>, batch: Seq<RecordView>, n: int) -> Seq<
    RecordView,
>
    decreases n,
{
    if n <= 0 {
        rs
    } else {
        apply_update(apply_updates(rs, batch, n - 1), batch[n - 1], 0)
    }
}

impl UrlStore {
    /// Looks up every record whose URL is in the list, in one pass; `None`
    /// when the list is empty ("nothing to look for").
    pub fn get_wiki_urls_by_urls(&self, urls: &Vec<String>) -> (r: Option<Vec<WikiUrlRecord>>)
        ensures
            (r is None) <==> urls@.len() == 0,
            r matches Some(found) ==> records_view(found@) == records_with_urls(
                self.view_records(),
                urls.deep_view(),
                self.view_records().len() as int,
            ),
    {
        if urls.len() == 0 {
            return None;
        }
        let ghost rv = self.view_records();
        let ghost us = urls.deep_view();
        let mut found: Vec<WikiUrlRecord> = Vec::new();
        let mut i: usize = 0;
        let n = self.records.len();
        while i < n
            invariant
                0 <= i <= n,
                n == self.records@.len(),
                rv == self.view_records(),
                rv.len() == n,
                us == urls.deep_view(),
                records_view(found@) == records_with_urls(rv, us, i as int),
            decreases n - i,
        {
            assert(rv[i as int] == self.records@[i as int]@);
            if contains_string_pub(urls, &self.records[i].url) {
                found.push(self.records[i].duplicate());
            }
            assert(records_view(found@) =~= records_with_urls(rv, us, i + 1));
            i = i + 1;
        }
        Some(found)
    }

    /// Refreshes a batch of records in place to the given status and
    /// origin: the authoritative overwrite applied to every record the
    /// lookup returned.
    pub fn update_wiki_urls_with_message(
        &mut self,
        entries: &Vec<WikiUrlRecord>,
        status: crate::records::WikiUrlStatus,
        origin: crate::records::Origin,
        now: i64,
    )
        ensures
            final(self).view_records() == apply_updates(
                old(self).view_records(),
                entries@.map_values(
                    |e: WikiUrlRecord| crate::reconcile::mk_update(e@, status, origin, now),
                ),
                entries@.len() as int,
            ),
    {
        let ghost base = old(self).view_records();
        let ghost batch = entries@.map_values(
            |e: WikiUrlRecord| crate::reconcile::mk_update(e@, status, origin, now),
        );
        let mut i: usize = 0;
        let n = entries.len();
        while i < n
            invariant
                0 <= i <= n,
                n == entries@.len(),
                batch == entries@.map_values(
                    |e: WikiUrlRecord| crate::reconcile::mk_update(e@, status, origin, now),
                ),
                batch.len() == n,
                self.view_records() == apply_updates(base, batch, i as int),
            decreases n - i,
        {
            let mut upd = entries[i].duplicate();
            upd.status = status;
            upd.user_id = Some(origin.user_id);
            upd.message_id = Some(origin.message_id);
            upd.channel_id = Some(origin.channel_id);
            upd.guild_id = origin.guild_id;
            upd.updated_at = now;
            assert(upd@ == batch[i as int]);
            self.update_record(upd);
            i = i + 1;
        }
    }
}

/// Linear membership test of a URL string in a list.
pub fn contains_string_pub(v: &Vec<String>, c: &String) -> (r: bool)
    ensures
        r == v.deep_view().contains(c@),
{
    let mut k: usize = 0;
    while k < v.len()
        invariant
            0 <= k <= v@.len(),
            forall|m: int| 0 <= m < k ==> v.deep_view()[m] != c@,
        decreases v@.len() - k,
    {
        if v[k].eq(c) {
            assert(v.deep_view()[k as int] == c@);
            return true;
        }
        k = k + 1;
    }
    false
}

} // verus!
