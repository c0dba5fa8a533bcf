//! The feed polling scheduler's decisions.
//!
//! On each timer tick the scheduler selects the active subscriptions whose
//! interval has elapsed, oldest-checked first so that no feed starves, and
//! dispatches one check per due feed. Checks run under a counting permit
//! pool of fixed capacity: a check first acquires a permit and blocks until
//! one is free — backpressure, not shedding — so no more than the
//! configured number of checks is ever in flight.
use vstd::prelude::*;

use crate::feeds::{FeedStatus, FeedSubscription, FeedSubscriptionView};

verus! {

/// View of a subscription sequence.
pub open spec fn feeds_view(fs: Seq<FeedSubscription>) -> Seq<FeedSubscriptionView> {
    fs.map_values(|f: FeedSubscription| f@)
}

/// A subscription is due when it is active and its interval has elapsed
/// since the last check.
pub open spec fn is_due(f: FeedSubscriptionView, now: i64) -> bool {
    f.status == FeedStatus::Active && f.last_checked_at + f.check_interval_minutes * 60 < now
}

/// The due subscriptions among the first `n`, in stored order.
pub open spec fn due_list(fs: Seq<FeedSubscriptionView>, now: i64, n: int) -> Seq<
    FeedSubscriptionView,
>
    decreases n,
{
    if n <= 0 {
        Seq::empty()
    } else {
        let r = due_list(fs, now, n - 1);
        if is_due(fs[n - 1], now) {
            r.push(fs[n - 1])
        } else {
            r
        }
    }
}

/// Order by last check time: the feed that has waited longest first.
pub open spec fn le_checked(a: FeedSubscriptionView, b: FeedSubscriptionView) -> bool {
    a.last_checked_at <= b.last_checked_at
}

/// Stable insertion of `f` after every feed checked no later than it.
pub open spec fn insert_by_checked(v: Seq<FeedSubscriptionView>, f: FeedSubscriptionView) -> Seq<
    FeedSubscriptionView,
>
    decreases v.len(),
{
    if v.len() == 0 {
        seq![f]
    } else if le_checked(v[0], f) {
        seq![v[0]] + insert_by_checked(v.drop_first(), f)
    } else {
        seq![f] + v
    }
}

/// Stable insertion sort of the first `n` feeds, oldest-checked first.
pub open spec fn sort_feeds(v: Seq<FeedSubscriptionView>, n: int) -> Seq<FeedSubscriptionView>
    decreases n,
{
    if n <= 0 {
        Seq::empty()
    } else {
        insert_by_checked(sort_feeds(v, n - 1), v[n - 1])
    }
}

/// Every pair of positions is oldest-checked first.
pub open spec fn sorted_feeds(v: Seq<FeedSubscriptionView>) -> bool {
    forall|i: int, j: int| 0 <= i < j < v.len() ==> le_checked(v[i], v[j])
}

proof fn lemma_insert_by_checked_ensures(v: Seq<FeedSubscriptionView>, f: FeedSubscriptionView)
    requires
        sorted_feeds(v),
    ensures
        sorted_feeds(insert_by_checked(v, f)),
        insert_by_checked(v, f).to_multiset() == v.to_multiset().insert(f),
        insert_by_checked(v, f).len() == v.len() + 1,
    decreases v.len(),
{
    broadcast use vstd::seq_lib::group_to_multiset_ensures;

    if v.len() == 0 {
        assert(seq![f] =~= Seq::<FeedSubscriptionView>::empty().push(f));
        assert(insert_by_checked(v, f).to_multiset() =~= v.to_multiset().insert(f));
    } else if le_checked(v[0], f) {
        let d = v.drop_first();
        assert(sorted_feeds(d)) by {
            assert forall|i: int, j: int| 0 <= i < j < d.len() implies le_checked(d[i], d[j]) by {
                assert(d[i] == v[i + 1]);
                assert(d[j] == v[j + 1]);
            }
        }
        lemma_insert_by_checked_ensures(d, f);
        let rest = insert_by_checked(d, f);
        let r = seq![v[0]] + rest;
        assert(insert_by_checked(v, f) == r);
        assert forall|jj: int| 1 <= jj < r.len() implies le_checked(r[0], r[jj]) by {
            let y = r[jj];
            assert(rest[jj - 1] == y);
            assert(rest.contains(y));
            assert(rest.to_multiset().count(y) > 0);
            if d.to_multiset().count(y) > 0 {
                assert(d.contains(y));
                let k = choose|k: int| 0 <= k < d.len() && d[k] == y;
                assert(d[k] == v[k + 1]);
                assert(le_checked(v[0], v[k + 1]));
            } else {
                assert(y == f);
            }
        }
        assert(sorted_feeds(r)) by {
            assert forall|i: int, j: int| 0 <= i < j < r.len() implies le_checked(r[i], r[j]) by {
                if i == 0 {
                    assert(le_checked(r[0], r[j]));
                } else {
                    assert(r[i] == rest[i - 1]);
                    assert(r[j] == rest[j - 1]);
                }
            }
        }
        assert(r.to_multiset() =~= v.to_multiset().insert(f)) by {
            vstd::seq_lib::lemma_multiset_commutative(seq![v[0]], rest);
            assert(v =~= seq![v[0]] + d);
            vstd::seq_lib::lemma_multiset_commutative(seq![v[0]], d);
            assert(seq![v[0]].to_multiset() =~= Seq::<FeedSubscriptionView>::empty().push(
                v[0],
            ).to_multiset());
        }
    } else {
        let r = seq![f] + v;
        assert(insert_by_checked(v, f) == r);
        assert(sorted_feeds(r)) by {
            assert forall|i: int, j: int| 0 <= i < j < r.len() implies le_checked(r[i], r[j]) by {
                if i == 0 {
                    assert(r[j] == v[j - 1]);
                    assert(le_checked(f, v[0]));
                    if j > 1 {
                        assert(le_checked(v[0], v[j - 1]));
                    }
                } else {
                    assert(r[i] == v[i - 1]);
                    assert(r[j] == v[j - 1]);
                }
            }
        }
        assert(r.to_multiset() =~= v.to_multiset().insert(f)) by {
            vstd::seq_lib::lemma_multiset_commutative(seq![f], v);
            assert(seq![f].to_multiset() =~= Seq::<FeedSubscriptionView>::empty().push(
                f,
            ).to_multiset());
        }
    }
}

/// Starvation avoidance: the due list is served oldest-checked first, and
/// the sort loses and invents no feed.
pub proof fn lemma_sort_feeds_ensures(v: Seq<FeedSubscriptionView>, n: int)
    requires
        0 <= n <= v.len(),
    ensures
        sorted_feeds(sort_feeds(v, n)),
        sort_feeds(v, n).to_multiset() == v.take(n).to_multiset(),
        sort_feeds(v, n).len() == n,
    decreases n,
{
    broadcast use vstd::seq_lib::group_to_multiset_ensures;

    if n == 0 {
        assert(v.take(0) =~= Seq::<FeedSubscriptionView>::empty());
    } else {
        lemma_sort_feeds_ensures(v, n - 1);
        lemma_insert_by_checked_ensures(sort_feeds(v, n - 1), v[n - 1]);
        assert(v.take(n) =~= v.take(n - 1).push(v[n - 1]));
    }
}

fn is_due_exec(f: &FeedSubscription, now: i64) -> (r: bool)
    ensures
        r == is_due(f@, now),
{
    let active = match f.status {
        FeedStatus::Active => true,
        FeedStatus::Inactive => false,
    };
    active && (f.last_checked_at as i128) + (f.check_interval_minutes as i128) * 60 < (now as i128)
}

fn le_checked_exec(a: &FeedSubscription, b: &FeedSubscription) -> (r: bool)
    ensures
        r == le_checked(a@, b@),
{
    a.last_checked_at <= b.last_checked_at
}

proof fn lemma_insert_by_checked_at(v: Seq<FeedSubscriptionView>, f: FeedSubscriptionView, p: int)
    requires
        0 <= p <= v.len(),
        forall|m: int| 0 <= m < p ==> le_checked(v[m], f),
        p < v.len() ==> !le_checked(v[p], f),
    ensures
        insert_by_checked(v, f) == v.take(p) + seq![f] + v.skip(p),
    decreases p,
{
    if v.len() == 0 {
        assert(insert_by_checked(v, f) =~= v.take(p) + seq![f] + v.skip(p));
    } else if p == 0 {
        assert(v.take(0) =~= Seq::<FeedSubscriptionView>::empty());
        assert(v.skip(0) =~= v);
        assert(insert_by_checked(v, f) =~= v.take(p) + seq![f] + v.skip(p));
    } else {
        let d = v.drop_first();
        assert(le_checked(v[0], f));
        assert forall|m: int| 0 <= m < p - 1 implies le_checked(d[m], f) by {
            assert(d[m] == v[m + 1]);
        }
        assert(p - 1 < d.len() ==> !le_checked(d[p - 1], f));
        lemma_insert_by_checked_at(d, f, p - 1);
        assert(insert_by_checked(v, f) == seq![v[0]] + (d.take(p - 1) + seq![f] + d.skip(p - 1)));
        assert(seq![v[0]] + (d.take(p - 1) + seq![f] + d.skip(p - 1)) =~= v.take(p) + seq![f]
            + v.skip(p));
    }
}

/// Selects the feeds due for a check at `now`, ordered oldest-checked
/// first: what one scheduler tick dispatches. An empty result makes the
/// tick a no-op.
pub fn select_due(feeds: &Vec<FeedSubscription>, now: i64) -> (r: Vec<FeedSubscription>)
    ensures
        feeds_view(r@) == ({
            let due = due_list(feeds_view(feeds@), now, feeds@.len() as int);
            sort_feeds(due, due.len() as int)
        }),
{
    let ghost fv = feeds_view(feeds@);
    let mut due: Vec<FeedSubscription> = Vec::new();
    let mut i: usize = 0;
    let n = feeds.len();
    while i < n
        invariant
            0 <= i <= n,
            n == feeds@.len(),
            fv == feeds_view(feeds@),
            fv.len() == n,
            feeds_view(due@) == due_list(fv, now, i as int),
        decreases n - i,
    {
        assert(fv[i as int] == feeds@[i as int]@);
        if is_due_exec(&feeds[i], now) {
            due.push(feeds[i].duplicate());
            assert(feeds_view(due@) =~= due_list(fv, now, i + 1));
        } else {
            assert(feeds_view(due@) =~= due_list(fv, now, i + 1));
        }
        i = i + 1;
    }
    let ghost dv = feeds_view(due@);
    let mut out: Vec<FeedSubscription> = Vec::new();
    let mut j: usize = 0;
    let m = due.len();
    while j < m
        invariant
            0 <= j <= m,
            m == due@.len(),
            dv == feeds_view(due@),
            dv.len() == m,
            feeds_view(out@) == sort_feeds(dv, j as int),
            out@.len() == j,
        decreases m - j,
    {
        let x = due[j].duplicate();
        assert(x@ == dv[j as int]);
        let ghost before = feeds_view(out@);
        let mut p: usize = 0;
        while p < out.len() && le_checked_exec(&out[p], &x)
            invariant
                0 <= p <= out@.len(),
                before == feeds_view(out@),
                before.len() == out@.len(),
                x@ == dv[j as int],
                forall|q: int| 0 <= q < p ==> le_checked(before[q], x@),
            decreases out@.len() - p,
        {
            assert(before[p as int] == out@[p as int]@);
            p = p + 1;
        }
        proof {
            if p < out@.len() {
                assert(before[p as int] == out@[p as int]@);
            }
            lemma_insert_by_checked_at(before, x@, p as int);
        }
        out.insert(p, x);
        proof {
            assert(feeds_view(out@) =~= before.take(p as int) + seq![dv[j as int]] + before.skip(
                p as int,
            ));
            assert(feeds_view(out@) =~= sort_feeds(dv, j + 1));
        }
        j = j + 1;
    }
    out
}

/// What the pool does on each event: an acquire only succeeds below
/// capacity (callers block and retry), a release frees one permit.
#[derive(Clone, Copy, Debug, PartialEq, Eq, Structural)]
pub enum PoolEvent {
    Acquire,
    Release,
}

/// Permits in flight after an event, from `n` in flight at capacity `cap`.
pub open spec fn pool_step(n: int, cap: int, ev: PoolEvent) -> int {
    match ev {
        PoolEvent::Acquire => if n < cap {
            n + 1
        } else {
            n
        },
        PoolEvent::Release => if n > 0 {
            n - 1
        } else {
            n
        },
    }
}

/// Permits in flight after a whole event trace, starting idle.
pub open spec fn pool_run(cap: int, evs: Seq<PoolEvent>) -> int
    decreases evs.len(),
{
    if evs.len() == 0 {
        0
    } else {
        pool_step(pool_run(cap, evs.drop_last()), cap, evs.last())
    }
}

/// The concurrency bound holds over every possible interleaving: whatever
/// order checks acquire and release permits, the number in flight never
/// exceeds the pool's capacity.
pub proof fn lemma_pool_bounded(cap: int, evs: Seq<PoolEvent>)
    requires
        cap >= 0,
    ensures
        0 <= pool_run(cap, evs) <= cap,
    decreases evs.len(),
{
    if evs.len() > 0 {
        lemma_pool_bounded(cap, evs.drop_last());
    }
}

/// A counting permit pool bounding in-flight feed checks.
pub struct PermitPool {
    pub capacity: usize,
    pub in_flight: usize,
}

impl PermitPool {
    /// The pool's invariant: never more permits out than capacity.
    pub open spec fn wf(&self) -> bool {
        self.in_flight <= self.capacity
    }

    /// A pool of `capacity` permits, all free.
    pub fn new(capacity: usize) -> (r: PermitPool)
        ensures
            r.capacity == capacity,
            r.in_flight == 0,
            r.wf(),
    {
        PermitPool { capacity, in_flight: 0 }
    }

    /// Takes a permit when one is free. A caller that gets `false` must
    /// wait and retry: work is delayed, never shed.
    pub fn try_acquire(&mut self) -> (acquired: bool)
        requires
            old(self).wf(),
        ensures
            final(self).wf(),
            final(self).capacity == old(self).capacity,
            final(self).in_flight as int == pool_step(
                old(self).in_flight as int,
                old(self).capacity as int,
                PoolEvent::Acquire,
            ),
            acquired == (old(self).in_flight < old(self).capacity),
    {
        if self.in_flight < self.capacity {
            self.in_flight = self.in_flight + 1;
            true
        } else {
            false
        }
    }

    /// Returns a permit.
    pub fn release(&mut self)
        requires
            old(self).wf(),
        ensures
            final(self).wf(),
            final(self).capacity == old(self).capacity,
            final(self).in_flight as int == pool_step(
                old(self).in_flight as int,
                old(self).capacity as int,
                PoolEvent::Release,
            ),
    {
        if self.in_flight > 0 {
            self.in_flight = self.in_flight - 1;
        }
    }
}

} // verus!

verus! {

/// The single-initialization guard of process bootstrap: the background
/// tasks are started exactly once, on the first ready signal.
pub struct StartupGuard {
    pub started: bool,
}

impl StartupGuard {
    /// A fresh guard: nothing started yet.
    pub fn new() -> (r: StartupGuard)
        ensures
            !r.started,
    {
        StartupGuard { started: false }
    }

    /// Claims the one-time initialization: true exactly on the first call.
    pub fn try_begin(&mut self) -> (first: bool)
        ensures
            final(self).started,
            first == !old(self).started,
    {
        let first = !self.started;
        self.started = true;
        first
    }
}

} // verus!
