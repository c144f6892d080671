//! Per-route rate-limit bucket state and its transitions.
//!
//! A bucket tracks how many calls the window still permits (`remaining`),
//! the window capacity as last reported by the server (`limit`), when the
//! window restores (`reset_at_ms`), and how many throttle responses arrived
//! back to back (`consecutive_throttles`). The window is rolled lazily:
//! once the clock passes `reset_at_ms`, `remaining` is restored to `limit`
//! before the next admission decision for that bucket.

use vstd::prelude::*;

verus! {

/// Rate-limit state of one route bucket. Timestamps are wall-clock
/// milliseconds supplied by the embedding runtime.
#[derive(Clone, Copy, Debug, PartialEq, Eq, Structural)]
pub struct BucketInfo {
    /// Calls permitted before the window resets.
    pub remaining: u32,
    /// When `remaining` may be restored to `limit` (ms).
    pub reset_at_ms: u64,
    /// Window capacity as last reported by the server.
    pub limit: u32,
    /// Back-to-back throttle responses for this route; reset to 0 by any
    /// non-throttled response.
    pub consecutive_throttles: u32,
}

impl Default for BucketInfo {
    /// A bucket never seen before is optimistic: one call is allowed
    /// immediately and the server's first response supplies real limits.
    fn default() -> (b: BucketInfo)
        ensures
            b == fresh_bucket(),
    {
        BucketInfo { remaining: 1, reset_at_ms: 0, limit: 1, consecutive_throttles: 0 }
    }
}

/// The state a bucket is created with: its window is already expired, so the
/// first request rolls it to `remaining == limit == 1` and proceeds.
pub open spec fn fresh_bucket() -> BucketInfo {
    BucketInfo { remaining: 1, reset_at_ms: 0, limit: 1, consecutive_throttles: 0 }
}

/// The lazy window roll: once the clock passes `reset_at_ms`, the window's
/// allowance is restored to `limit`.
pub open spec fn rolled(b: BucketInfo, now_ms: u64) -> BucketInfo {
    if now_ms >= b.reset_at_ms {
        BucketInfo { remaining: b.limit, ..b }
    } else {
        b
    }
}

/// Whether an admission attempt at `now_ms` must wait for this bucket: the
/// window is exhausted and has not yet reset.
pub open spec fn bucket_blocked(b: BucketInfo, now_ms: u64) -> bool {
    now_ms < b.reset_at_ms && b.remaining == 0
}

/// The bucket after a request is admitted at `now_ms`: the window is rolled
/// if due, then the allowance is decremented (saturating at zero).
pub open spec fn acquired(b: BucketInfo, now_ms: u64) -> BucketInfo {
    let r = rolled(b, now_ms);
    BucketInfo {
        remaining: if r.remaining > 0 { (r.remaining - 1) as u32 } else { 0u32 },
        ..r
    }
}

/// One admission attempt on a bucket: whether the request proceeds, and the
/// bucket afterwards. A blocked attempt leaves the bucket unchanged.
pub open spec fn bucket_admit_step(b: BucketInfo, now_ms: u64) -> (bool, BucketInfo) {
    if bucket_blocked(b, now_ms) {
        (false, b)
    } else {
        (true, acquired(b, now_ms))
    }
}

/// Exec mirror of `rolled`.
pub fn roll_bucket(b: BucketInfo, now_ms: u64) -> (r: BucketInfo)
    ensures
        r == rolled(b, now_ms),
{
    if now_ms >= b.reset_at_ms {
        BucketInfo { remaining: b.limit, ..b }
    } else {
        b
    }
}

/// A run of admission attempts against one bucket, oldest first: the bucket
/// afterwards and how many of the attempts proceeded.
pub open spec fn run_admits(b: BucketInfo, times: Seq<u64>) -> (BucketInfo, nat)
    decreases times.len(),
{
    if times.len() == 0 {
        (b, 0nat)
    } else {
        let step = bucket_admit_step(b, times[0]);
        let rest = run_admits(step.1, times.drop_first());
        (rest.0, rest.1 + if step.0 { 1nat } else { 0nat })
    }
}

/// Within a single non-reset window, a bucket admits at most its current
/// allowance: for any sequence of admission attempts whose times all fall
/// before the bucket's reset instant, the number that proceed is bounded by
/// `remaining`, and the reset instant itself never moves.
pub proof fn lemma_window_admission_bound(b: BucketInfo, times: Seq<u64>)
    requires
        forall|i: int| 0 <= i < times.len() ==> times[i] < b.reset_at_ms,
    ensures
        run_admits(b, times).1 <= b.remaining,
        run_admits(b, times).0.reset_at_ms == b.reset_at_ms,
    decreases times.len(),
{
    if times.len() > 0 {
        let step = bucket_admit_step(b, times[0]);
        assert(times[0] < b.reset_at_ms);
        assert(step.1.reset_at_ms == b.reset_at_ms);
        assert(forall|i: int|
            0 <= i < times.drop_first().len() ==> times.drop_first()[i] < step.1.reset_at_ms);
        lemma_window_admission_bound(step.1, times.drop_first());
        if step.0 {
            assert(b.remaining > 0);
            assert(step.1.remaining == b.remaining - 1);
        }
    }
}

/// The headline admission guarantee: however many concurrent submissions
/// target one bucket, at most `limit` of them are sent within a single
/// non-reset window that starts with a full allowance.
pub proof fn lemma_window_calls_at_most_limit(b: BucketInfo, times: Seq<u64>)
    requires
        b.remaining == b.limit,
        forall|i: int| 0 <= i < times.len() ==> times[i] < b.reset_at_ms,
    ensures
        run_admits(b, times).1 <= b.limit,
{
    lemma_window_admission_bound(b, times);
}

} // verus!
