//! The dispatcher core: the bucket table, the global throttle, and the two
//! scheduling decisions — admission and rate-limit feedback application.
//!
//! The embedding runtime drives one `DispatcherCore` per process: before each
//! HTTP call it asks `try_admit` whether the request may be sent now or must
//! wait,
//! and after each response it hands the server's rate-limit feedback to
//! `apply_feedback`. All mutation of shared scheduling state happens inside
//! these two verified calls; the runtime only sleeps and performs I/O.

use vstd::prelude::*;

use crate::bucket::{acquired, bucket_blocked, fresh_bucket, BucketInfo};
use crate::route::{RouteKey, RouteKeyV};

verus! {

/// Extra sleep added to a bucket wait, absorbing clock skew against the
/// server.
pub const BUCKET_WAIT_BUFFER_MS: u64 = 100;

/// Wait used for a throttle response that carries no retry-after duration.
pub const DEFAULT_RETRY_AFTER_MS: u64 = 1000;

/// The admission decision for one request at one instant.
#[derive(Clone, Copy, Debug, PartialEq, Eq, Structural)]
pub enum Admission {
    /// The request may be sent now; its bucket allowance was consumed.
    Proceed,
    /// The global throttle is active: sleep until `until_ms`, then ask again.
    WaitGlobal { until_ms: u64 },
    /// The route's window is exhausted: sleep until `until_ms`, then ask
    /// again.
    WaitBucket { until_ms: u64 },
}

/// Server rate-limit feedback read from one response, already reduced to
/// plain values by the runtime.
#[derive(Clone, Copy, Debug)]
pub struct Feedback {
    /// Remaining-count header, when present.
    pub remaining: Option<u32>,
    /// Reset-after duration header, when present.
    pub reset_after_ms: Option<u64>,
    /// Window-capacity header, when present.
    pub limit: Option<u32>,
    /// Whether the response signalled a throttle.
    pub is_throttle: bool,
    /// Retry-after duration of a throttle response, when present.
    pub retry_after_ms: Option<u64>,
    /// Whether a throttle applies across all routes rather than this one.
    pub is_global: bool,
}

/// Mathematical image of a `DispatcherCore`.
#[verifier::ext_equal]
pub struct DispatcherView {
    pub buckets: Map<RouteKeyV, BucketInfo>,
    pub global_not_before_ms: u64,
}

/// The bucket table and the global throttle.
pub struct DispatcherCore {
    buckets: Vec<(RouteKey, BucketInfo)>,
    global_not_before_ms: u64,
}

/// The finite map an association list denotes: later entries win, though the
/// table keeps its keys distinct.
pub open spec fn assoc_map(s: Seq<(RouteKey, BucketInfo)>) -> Map<RouteKeyV, BucketInfo>
    decreases s.len(),
{
    if s.len() == 0 {
        Map::empty()
    } else {
        assoc_map(s.drop_last()).insert(s.last().0@, s.last().1)
    }
}

/// No two table entries name the same bucket.
pub open spec fn distinct_keys(s: Seq<(RouteKey, BucketInfo)>) -> bool {
    forall|i: int, j: int| 0 <= i < j < s.len() ==> s[i].0@ != s[j].0@
}

proof fn lemma_assoc_contains(s: Seq<(RouteKey, BucketInfo)>, k: RouteKeyV)
    ensures
        assoc_map(s).contains_key(k) <==> exists|i: int| 0 <= i < s.len() && s[i].0@ == k,
    decreases s.len(),
{
    if s.len() > 0 {
        let prefix = s.drop_last();
        lemma_assoc_contains(prefix, k);
        if s.last().0@ == k {
            assert(s[s.len() - 1].0@ == k);
        } else {
            if assoc_map(s).contains_key(k) {
                let i = choose|i: int| 0 <= i < prefix.len() && prefix[i].0@ == k;
                assert(s[i].0@ == k);
            }
            if exists|i: int| 0 <= i < s.len() && s[i].0@ == k {
                let i = choose|i: int| 0 <= i < s.len() && s[i].0@ == k;
                assert(i < s.len() - 1);
                assert(prefix[i].0@ == k);
            }
        }
    }
}

proof fn lemma_assoc_index(s: Seq<(RouteKey, BucketInfo)>, i: int)
    requires
        distinct_keys(s),
        0 <= i < s.len(),
    ensures
        assoc_map(s).contains_key(s[i].0@),
        assoc_map(s)[s[i].0@] == s[i].1,
    decreases s.len(),
{
    if i == s.len() - 1 {
    } else {
        let prefix = s.drop_last();
        assert(prefix[i] == s[i]);
        lemma_assoc_index(prefix, i);
        assert(s.last().0@ != s[i].0@);
    }
}

proof fn lemma_assoc_update(s: Seq<(RouteKey, BucketInfo)>, i: int, p: (RouteKey, BucketInfo))
    requires
        distinct_keys(s),
        0 <= i < s.len(),
        p.0@ == s[i].0@,
    ensures
        assoc_map(s.update(i, p)) =~= assoc_map(s).insert(p.0@, p.1),
        distinct_keys(s.update(i, p)),
    decreases s.len(),
{
    let t = s.update(i, p);
    assert(forall|m: int, n: int| 0 <= m < n < t.len() ==> t[m].0@ != t[n].0@);
    if i == s.len() - 1 {
        assert(t.drop_last() =~= s.drop_last());
        assert(t.last() == p);
        assert(assoc_map(t) =~= assoc_map(s.drop_last()).insert(p.0@, p.1));
        assert(assoc_map(s).insert(p.0@, p.1) =~= assoc_map(s.drop_last()).insert(
            s.last().0@,
            s.last().1,
        ).insert(p.0@, p.1));
        assert(assoc_map(s.drop_last()).insert(s.last().0@, s.last().1).insert(p.0@, p.1)
            =~= assoc_map(s.drop_last()).insert(p.0@, p.1));
    } else {
        let prefix = s.drop_last();
        assert(prefix[i] == s[i]);
        lemma_assoc_update(prefix, i, p);
        assert(t.drop_last() =~= prefix.update(i, p));
        assert(t.last() == s.last());
        assert(s.last().0@ != p.0@);
        assert(assoc_map(t) =~= assoc_map(prefix).insert(p.0@, p.1).insert(
            s.last().0@,
            s.last().1,
        ));
        assert(assoc_map(prefix).insert(p.0@, p.1).insert(s.last().0@, s.last().1)
            =~= assoc_map(prefix).insert(s.last().0@, s.last().1).insert(p.0@, p.1));
    }
}

proof fn lemma_assoc_push(s: Seq<(RouteKey, BucketInfo)>, p: (RouteKey, BucketInfo))
    ensures
        assoc_map(s.push(p)) =~= assoc_map(s).insert(p.0@, p.1),
{
    assert(s.push(p).drop_last() =~= s);
    assert(s.push(p).last() == p);
}

/// The bucket the table holds for `k`, or a fresh optimistic bucket when the
/// route has not been seen yet.
pub open spec fn stored_or_fresh(m: Map<RouteKeyV, BucketInfo>, k: RouteKeyV) -> BucketInfo {
    if m.contains_key(k) {
        m[k]
    } else {
        fresh_bucket()
    }
}

/// One admission decision: global throttle first, then the route's bucket,
/// lazily created and rolled; a `Proceed` consumes one unit of the bucket's
/// allowance.
pub open spec fn core_admit(c: DispatcherView, k: RouteKeyV, now_ms: u64) -> (Admission,
    DispatcherView,
) {
    if now_ms < c.global_not_before_ms {
        (Admission::WaitGlobal { until_ms: c.global_not_before_ms }, c)
    } else {
        let b0 = stored_or_fresh(c.buckets, k);
        if bucket_blocked(b0, now_ms) {
            (
                Admission::WaitBucket {
                    until_ms: b0.reset_at_ms.saturating_add(BUCKET_WAIT_BUFFER_MS),
                },
                DispatcherView { buckets: c.buckets.insert(k, b0), ..c },
            )
        } else {
            (
                Admission::Proceed,
                DispatcherView { buckets: c.buckets.insert(k, acquired(b0, now_ms)), ..c },
            )
        }
    }
}

/// The consecutive-throttle counter after one response.
pub open spec fn next_consecutive(b: BucketInfo, is_throttle: bool) -> u32 {
    if is_throttle {
        b.consecutive_throttles.saturating_add(1)
    } else {
        0u32
    }
}

/// Exponential penalty for a route that keeps getting throttled: two to the
/// power of the consecutive-throttle count, capped at six, in seconds.
pub open spec fn backoff_penalty_ms(consec: u32) -> u64 {
    if consec >= 6 {
        64000u64
    } else if consec == 5 {
        32000u64
    } else if consec == 4 {
        16000u64
    } else if consec == 3 {
        8000u64
    } else if consec == 2 {
        4000u64
    } else if consec == 1 {
        2000u64
    } else {
        1000u64
    }
}

/// How long a throttle response blocks: the server's retry-after duration
/// (with a default when absent), plus the exponential penalty once the route
/// is throttled back to back.
pub open spec fn throttle_wait_ms(consec: u32, retry_after_ms: Option<u64>) -> u64 {
    let base = match retry_after_ms {
        Some(t) => t,
        None => DEFAULT_RETRY_AFTER_MS,
    };
    if consec > 1 {
        base.saturating_add(backoff_penalty_ms(consec))
    } else {
        base
    }
}

/// One bucket after server feedback: the throttle counter moves first, then
/// any reported remaining/reset/limit values overwrite the stored ones, and a
/// route-level throttle finally empties the window until the computed wait
/// has passed. A global throttle leaves the bucket's window alone (the
/// global deadline moves instead).
pub open spec fn spec_apply_feedback(b: BucketInfo, fb: Feedback, now_ms: u64) -> BucketInfo {
    let consec = next_consecutive(b, fb.is_throttle);
    let rem = match fb.remaining {
        Some(r) => r,
        None => b.remaining,
    };
    let rst = match fb.reset_after_ms {
        Some(d) => now_ms.saturating_add(d),
        None => b.reset_at_ms,
    };
    let lim = match fb.limit {
        Some(l) => l,
        None => b.limit,
    };
    if fb.is_throttle && !fb.is_global {
        BucketInfo {
            remaining: 0,
            reset_at_ms: now_ms.saturating_add(throttle_wait_ms(consec, fb.retry_after_ms)),
            limit: lim,
            consecutive_throttles: consec,
        }
    } else {
        BucketInfo { remaining: rem, reset_at_ms: rst, limit: lim, consecutive_throttles: consec }
    }
}

/// The whole core after server feedback for route `k`: only that route's
/// bucket changes, and the global deadline moves exactly when the response
/// was a global throttle.
pub open spec fn core_apply_feedback(
    c: DispatcherView,
    k: RouteKeyV,
    fb: Feedback,
    now_ms: u64,
) -> DispatcherView {
    let b0 = stored_or_fresh(c.buckets, k);
    let g = if fb.is_throttle && fb.is_global {
        now_ms.saturating_add(throttle_wait_ms(next_consecutive(b0, true), fb.retry_after_ms))
    } else {
        c.global_not_before_ms
    };
    DispatcherView {
        buckets: c.buckets.insert(k, spec_apply_feedback(b0, fb, now_ms)),
        global_not_before_ms: g,
    }
}

impl View for DispatcherCore {
    type V = DispatcherView;

    closed spec fn view(&self) -> DispatcherView {
        DispatcherView {
            buckets: assoc_map(self.buckets@),
            global_not_before_ms: self.global_not_before_ms,
        }
    }
}

impl DispatcherCore {
    /// The table never holds two entries for one bucket.
    pub closed spec fn wf(&self) -> bool {
        distinct_keys(self.buckets@)
    }

    /// A fresh core: no buckets seen, global throttle expired.
    pub fn new() -> (d: DispatcherCore)
        ensures
            d.wf(),
            d@.buckets =~= Map::<RouteKeyV, BucketInfo>::empty(),
            d@.global_not_before_ms == 0,
    {
        DispatcherCore { buckets: Vec::new(), global_not_before_ms: 0 }
    }

    /// The instant before which no request of any route may execute.
    pub fn global_not_before(&self) -> (t: u64)
        ensures
            t == self@.global_not_before_ms,
    {
        self.global_not_before_ms
    }

    /// The stored state of one bucket, when the route has been seen.
    pub fn bucket_snapshot(&self, key: &RouteKey) -> (r: Option<BucketInfo>)
        requires
            self.wf(),
        ensures
            r == (if self@.buckets.contains_key(key@) {
                Some(self@.buckets[key@])
            } else {
                Option::<BucketInfo>::None
            }),
    {
        let n = self.buckets.len();
        let mut i: usize = 0;
        while i < n
            invariant
                n == self.buckets@.len(),
                i <= n,
                distinct_keys(self.buckets@),
                forall|j: int| 0 <= j < i ==> self.buckets@[j].0@ != key@,
            decreases n - i,
        {
            if self.buckets[i].0.key_eq(key) {
                proof {
                    lemma_assoc_index(self.buckets@, i as int);
                }
                return Some(self.buckets[i].1);
            }
            i = i + 1;
        }
        proof {
            lemma_assoc_contains(self.buckets@, key@);
        }
        None
    }

    /// Index of the entry for `key`, creating a fresh bucket when the route
    /// is new.
    fn get_or_create(&mut self, key: &RouteKey) -> (i: usize)
        requires
            old(self).wf(),
        ensures
            final(self).wf(),
            i < final(self).buckets@.len(),
            final(self).buckets@[i as int].0@ == key@,
            final(self).buckets@[i as int].1 == stored_or_fresh(old(self)@.buckets, key@),
            final(self)@.buckets =~= old(self)@.buckets.insert(
                key@,
                stored_or_fresh(old(self)@.buckets, key@),
            ),
            final(self)@.global_not_before_ms == old(self)@.global_not_before_ms,
    {
        let n = self.buckets.len();
        let mut i: usize = 0;
        while i < n
            invariant
                n == self.buckets@.len(),
                i <= n,
                distinct_keys(self.buckets@),
                forall|j: int| 0 <= j < i ==> self.buckets@[j].0@ != key@,
            decreases n - i,
        {
            if self.buckets[i].0.key_eq(key) {
                proof {
                    lemma_assoc_index(self.buckets@, i as int);
                    assert(self@.buckets.insert(key@, self@.buckets[key@]) =~= self@.buckets);
                }
                return i;
            }
            i = i + 1;
        }
        proof {
            lemma_assoc_contains(self.buckets@, key@);
            assert(!self@.buckets.contains_key(key@));
        }
        let ghost s0 = self.buckets@;
        let entry = (key.clone(), BucketInfo::default());
        self.buckets.push(entry);
        proof {
            lemma_assoc_push(s0, (entry.0, entry.1));
            assert(self.buckets@ =~= s0.push((entry.0, entry.1)));
            assert(distinct_keys(self.buckets@));
        }
        n
    }

    /// Replace the bucket at entry `i`, keeping its key.
    fn set_bucket(&mut self, i: usize, b: BucketInfo)
        requires
            old(self).wf(),
            i < old(self).buckets@.len(),
        ensures
            final(self).wf(),
            final(self)@.buckets =~= old(self)@.buckets.insert(old(self).buckets@[i as int].0@, b),
            final(self)@.global_not_before_ms == old(self)@.global_not_before_ms,
    {
        let k = self.buckets[i].0.clone();
        let ghost s0 = self.buckets@;
        self.buckets.set(i, (k, b));
        proof {
            lemma_assoc_update(s0, i as int, (self.buckets@[i as int].0, b));
        }
    }

    /// The admission decision for a request against route `key` at `now_ms`:
    /// wait for the global throttle, wait for the route's exhausted window,
    /// or proceed, consuming one unit of the window's allowance. The caller
    /// sleeps until the returned instant and asks again; the decision is
    /// never cached across the sleep.
    pub fn try_admit(&mut self, key: &RouteKey, now_ms: u64) -> (a: Admission)
        requires
            old(self).wf(),
        ensures
            final(self).wf(),
            ({
                let r = core_admit(old(self)@, key@, now_ms);
                a == r.0 && final(self)@ == r.1
            }),
    {
        if now_ms < self.global_not_before_ms {
            let until = self.global_not_before_ms;
            proof {
                assert(self@ =~= old(self)@);
            }
            return Admission::WaitGlobal { until_ms: until };
        }
        let i = self.get_or_create(key);
        let b0 = self.buckets[i].1;
        if now_ms < b0.reset_at_ms && b0.remaining == 0 {
            proof {
                assert(self@.buckets =~= core_admit(old(self)@, key@, now_ms).1.buckets);
            }
            return Admission::WaitBucket {
                until_ms: b0.reset_at_ms.saturating_add(BUCKET_WAIT_BUFFER_MS),
            };
        }
        let rolled_b = crate::bucket::roll_bucket(b0, now_ms);
        let dec = if rolled_b.remaining > 0 {
            rolled_b.remaining - 1
        } else {
            0
        };
        self.set_bucket(i, BucketInfo { remaining: dec, ..rolled_b });
        proof {
            assert(self@.buckets =~= core_admit(old(self)@, key@, now_ms).1.buckets);
        }
        Admission::Proceed
    }

    /// Apply one response's rate-limit feedback to route `key` at `now_ms`.
    pub fn apply_feedback(&mut self, key: &RouteKey, fb: &Feedback, now_ms: u64)
        requires
            old(self).wf(),
        ensures
            final(self).wf(),
            final(self)@ == core_apply_feedback(old(self)@, key@, *fb, now_ms),
    {
        let i = self.get_or_create(key);
        let b0 = self.buckets[i].1;
        let b1 = apply_feedback_bucket(b0, fb, now_ms);
        self.set_bucket(i, b1);
        if fb.is_throttle && fb.is_global {
            let consec = b0.consecutive_throttles.saturating_add(1);
            let wait = compute_throttle_wait(consec, fb.retry_after_ms);
            self.global_not_before_ms = now_ms.saturating_add(wait);
        }
        proof {
            assert(self@.buckets =~= core_apply_feedback(old(self)@, key@, *fb, now_ms).buckets);
        }
    }
}

/// Exec mirror of `backoff_penalty_ms`.
fn compute_backoff_penalty(consec: u32) -> (p: u64)
    ensures
        p == backoff_penalty_ms(consec),
{
    if consec >= 6 {
        64000
    } else if consec == 5 {
        32000
    } else if consec == 4 {
        16000
    } else if consec == 3 {
        8000
    } else if consec == 2 {
        4000
    } else if consec == 1 {
        2000
    } else {
        1000
    }
}

/// Exec mirror of `throttle_wait_ms`.
fn compute_throttle_wait(consec: u32, retry_after_ms: Option<u64>) -> (w: u64)
    ensures
        w == throttle_wait_ms(consec, retry_after_ms),
{
    let base = match retry_after_ms {
        Some(t) => t,
        None => DEFAULT_RETRY_AFTER_MS,
    };
    if consec > 1 {
        base.saturating_add(compute_backoff_penalty(consec))
    } else {
        base
    }
}

/// Exec mirror of `spec_apply_feedback`.
fn apply_feedback_bucket(b: BucketInfo, fb: &Feedback, now_ms: u64) -> (r: BucketInfo)
    ensures
        r == spec_apply_feedback(b, *fb, now_ms),
{
    let consec = if fb.is_throttle {
        b.consecutive_throttles.saturating_add(1)
    } else {
        0
    };
    let rem = match fb.remaining {
        Some(r) => r,
        None => b.remaining,
    };
    let rst = match fb.reset_after_ms {
        Some(d) => now_ms.saturating_add(d),
        None => b.reset_at_ms,
    };
    let lim = match fb.limit {
        Some(l) => l,
        None => b.limit,
    };
    if fb.is_throttle && !fb.is_global {
        let wait = compute_throttle_wait(consec, fb.retry_after_ms);
        BucketInfo {
            remaining: 0,
            reset_at_ms: now_ms.saturating_add(wait),
            limit: lim,
            consecutive_throttles: consec,
        }
    } else {
        BucketInfo { remaining: rem, reset_at_ms: rst, limit: lim, consecutive_throttles: consec }
    }
}

/// After a route-level throttle response carrying `retryAfter == t`, the
/// route's own window is empty and stays shut at least until `now + t`,
/// while every other bucket and the global deadline are untouched.
pub proof fn lemma_route_throttle_shuts_bucket(
    c: DispatcherView,
    k: RouteKeyV,
    fb: Feedback,
    now_ms: u64,
    t: u64,
    k2: RouteKeyV,
)
    requires
        fb.is_throttle,
        !fb.is_global,
        fb.retry_after_ms == Some(t),
        now_ms + t <= u64::MAX,
        k2 != k,
    ensures
        core_apply_feedback(c, k, fb, now_ms).buckets[k].remaining == 0,
        core_apply_feedback(c, k, fb, now_ms).buckets[k].reset_at_ms >= now_ms + t,
        core_apply_feedback(c, k, fb, now_ms).buckets.contains_key(k2) == c.buckets.contains_key(
            k2,
        ),
        c.buckets.contains_key(k2) ==> core_apply_feedback(c, k, fb, now_ms).buckets[k2]
            == c.buckets[k2],
        core_apply_feedback(c, k, fb, now_ms).global_not_before_ms == c.global_not_before_ms,
{
    let consec = next_consecutive(stored_or_fresh(c.buckets, k), true);
    assert(throttle_wait_ms(consec, fb.retry_after_ms) >= t);
}

/// After a global throttle response, the global deadline covers the server's
/// retry-after duration.
pub proof fn lemma_global_throttle_deadline(
    c: DispatcherView,
    k: RouteKeyV,
    fb: Feedback,
    now_ms: u64,
    t: u64,
)
    requires
        fb.is_throttle,
        fb.is_global,
        fb.retry_after_ms == Some(t),
        now_ms + t <= u64::MAX,
    ensures
        core_apply_feedback(c, k, fb, now_ms).global_not_before_ms >= now_ms + t,
{
    let consec = next_consecutive(stored_or_fresh(c.buckets, k), true);
    assert(throttle_wait_ms(consec, fb.retry_after_ms) >= t);
}

/// While the global deadline set by a global throttle has not passed, every
/// admission attempt of every route — including a route never seen before —
/// waits for that deadline and changes nothing.
pub proof fn lemma_global_throttle_blocks_all(
    c: DispatcherView,
    k: RouteKeyV,
    fb: Feedback,
    now_ms: u64,
    k2: RouteKeyV,
    now2_ms: u64,
)
    requires
        fb.is_throttle,
        fb.is_global,
        now2_ms < core_apply_feedback(c, k, fb, now_ms).global_not_before_ms,
    ensures
        ({
            let c1 = core_apply_feedback(c, k, fb, now_ms);
            core_admit(c1, k2, now2_ms) == (
                Admission::WaitGlobal { until_ms: c1.global_not_before_ms },
                c1,
            )
        }),
{
}

/// A run of admission attempts against one route, oldest first: the core
/// afterwards and how many of the attempts proceeded.
pub open spec fn run_core_admits(c: DispatcherView, k: RouteKeyV, times: Seq<u64>) -> (
    DispatcherView,
    nat,
)
    decreases times.len(),
{
    if times.len() == 0 {
        (c, 0nat)
    } else {
        let r = core_admit(c, k, times[0]);
        let rest = run_core_admits(r.1, k, times.drop_first());
        (
            rest.0,
            rest.1 + if r.0 == Admission::Proceed {
                1nat
            } else {
                0nat
            },
        )
    }
}

/// The admission guarantee at the dispatcher: however many submissions
/// target one route, as long as their instants fall after the global
/// deadline and before the route's reset instant — a single non-reset
/// window — at most the window's allowance of them proceed.
pub proof fn lemma_dispatcher_window_bound(c: DispatcherView, k: RouteKeyV, times: Seq<u64>)
    requires
        forall|i: int| 0 <= i < times.len() ==> c.global_not_before_ms <= #[trigger] times[i],
        forall|i: int| 0 <= i < times.len() ==> #[trigger] times[i] < stored_or_fresh(
            c.buckets,
            k,
        ).reset_at_ms,
    ensures
        run_core_admits(c, k, times).1 <= stored_or_fresh(c.buckets, k).remaining,
    decreases times.len(),
{
    if times.len() > 0 {
        let now = times[0];
        let b0 = stored_or_fresh(c.buckets, k);
        let r = core_admit(c, k, now);
        let c1 = r.1;
        let b1 = stored_or_fresh(c1.buckets, k);
        assert(c1.buckets.contains_key(k));
        assert(b1.reset_at_ms == b0.reset_at_ms);
        assert(c1.global_not_before_ms == c.global_not_before_ms);
        assert(forall|i: int|
            0 <= i < times.drop_first().len() ==> c1.global_not_before_ms
                <= #[trigger] times.drop_first()[i]);
        assert(forall|i: int|
            0 <= i < times.drop_first().len() ==> #[trigger] times.drop_first()[i]
                < b1.reset_at_ms);
        lemma_dispatcher_window_bound(c1, k, times.drop_first());
        if r.0 == Admission::Proceed {
            assert(now < b0.reset_at_ms);
            assert(b0.remaining > 0);
            assert(b1.remaining == b0.remaining - 1);
        }
    }
}

/// The headline form: a window that starts with a full allowance admits at
/// most `limit` calls before it resets.
pub proof fn lemma_dispatcher_window_at_most_limit(
    c: DispatcherView,
    k: RouteKeyV,
    times: Seq<u64>,
)
    requires
        stored_or_fresh(c.buckets, k).remaining == stored_or_fresh(c.buckets, k).limit,
        forall|i: int| 0 <= i < times.len() ==> c.global_not_before_ms <= #[trigger] times[i],
        forall|i: int| 0 <= i < times.len() ==> #[trigger] times[i] < stored_or_fresh(
            c.buckets,
            k,
        ).reset_at_ms,
    ensures
        run_core_admits(c, k, times).1 <= stored_or_fresh(c.buckets, k).limit,
{
    lemma_dispatcher_window_bound(c, k, times);
}

/// The consecutive-throttle counter climbs by one on each of two
/// back-to-back throttle responses and falls to zero on any non-throttled
/// response.
pub proof fn lemma_consecutive_throttles(
    b: BucketInfo,
    fb1: Feedback,
    fb2: Feedback,
    fb3: Feedback,
    now1: u64,
    now2: u64,
    now3: u64,
)
    requires
        fb1.is_throttle,
        fb2.is_throttle,
        !fb3.is_throttle,
        b.consecutive_throttles + 2 <= u32::MAX,
    ensures
        spec_apply_feedback(b, fb1, now1).consecutive_throttles == b.consecutive_throttles + 1,
        spec_apply_feedback(spec_apply_feedback(b, fb1, now1), fb2, now2).consecutive_throttles
            == b.consecutive_throttles + 2,
        spec_apply_feedback(b, fb3, now3).consecutive_throttles == 0,
{
}

} // verus!
