//! The upload shipper's decisions: what to do after each upload attempt,
//! how long to back off, and which discovered segment to upload next. The
//! uploads themselves, the waiting and the file moves are done by the
//! caller, which reports each outcome back.

use vstd::prelude::*;
use vstd::arithmetic::power2::{pow2, lemma_pow2_unfold, lemma_pow2_pos};
use vstd::arithmetic::power::pow;
use crate::naming::SegmentName;

verus! {

/// Bounded exponential backoff for uploads.
#[derive(Clone, Copy, Debug, PartialEq, Eq, Structural)]
pub struct RetryPolicy {
    /// Attempts per segment in one discovery pass.
    pub max_attempts: u32,
    /// The wait after the first failure.
    pub base_delay_ms: u64,
    /// No wait is longer than this.
    pub max_delay_ms: u64,
}

impl RetryPolicy {
    /// At least one attempt is made.
    pub open spec fn valid(&self) -> bool {
        self.max_attempts > 0
    }
}

/// The wait after the `k + 1`-th failed attempt: the base delay doubled `k`
/// times, capped at the maximum.
pub open spec fn backoff(policy: RetryPolicy, k: nat) -> u64 {
    if policy.base_delay_ms * pow2(k) >= policy.max_delay_ms {
        policy.max_delay_ms
    } else {
        (policy.base_delay_ms * pow2(k)) as u64
    }
}

/// How one upload attempt ended.
#[derive(Clone, Copy, Debug, PartialEq, Eq, Structural)]
pub enum UploadOutcome {
    /// The remote store acknowledged the segment.
    Confirmed,
    /// The attempt failed; the remote store may or may not have it.
    Failed,
}

/// What the shipper does next with a segment.
#[derive(Clone, Copy, Debug, PartialEq, Eq, Structural)]
pub enum UploadAction {
    /// The upload is confirmed: the local copy may go.
    DeleteLocal,
    /// Wait this many milliseconds, then try again.
    RetryAfter(u64),
    /// Attempts are exhausted: keep the segment on disk for the next pass.
    LeaveForNextPass,
}

/// The action after attempt number `attempts` (counting from one) ended
/// with `outcome`.
pub open spec fn next_action(policy: RetryPolicy, attempts: u32, outcome: UploadOutcome) -> UploadAction {
    match outcome {
        UploadOutcome::Confirmed => UploadAction::DeleteLocal,
        UploadOutcome::Failed => if attempts < policy.max_attempts {
            UploadAction::RetryAfter(backoff(policy, (attempts - 1) as nat))
        } else {
            UploadAction::LeaveForNextPass
        },
    }
}

/// The wait after the `k + 1`-th failed attempt.
pub fn backoff_delay(policy: RetryPolicy, k: u32) -> (r: u64)
    ensures
        r == backoff(policy, k as nat),
{
    let base = policy.base_delay_ms;
    let cap = policy.max_delay_ms;
    let mut d: u64 = if base >= cap {
        cap
    } else {
        base
    };
    proof {
        assert(pow2(0) == 1) by {
            reveal(pow);
        }
        assert(base * pow2(0) == base);
    }
    let mut i: u32 = 0;
    while i < k
        invariant
            i <= k,
            d == backoff(policy, i as nat),
            base == policy.base_delay_ms,
            cap == policy.max_delay_ms,
        decreases k - i,
    {
        proof {
            lemma_pow2_unfold((i + 1) as nat);
            lemma_pow2_pos(i as nat);
            let p = pow2(i as nat);
            assert(base * (2 * p) == 2 * (base * p)) by (nonlinear_arith);
            assert(base * p >= 0) by (nonlinear_arith)
                requires
                    p > 0,
            ;
        }
        if d >= cap - d {
            d = cap;
        } else {
            d = 2 * d;
        }
        i = i + 1;
    }
    d
}

/// Decides what follows an upload attempt. The local copy is deleted only
/// on a confirmed upload; a failure is retried after the backoff while
/// attempts remain, and otherwise left on disk, never dropped.
pub fn after_attempt(policy: RetryPolicy, attempts: u32, outcome: UploadOutcome) -> (r: UploadAction)
    requires
        attempts >= 1,
    ensures
        r == next_action(policy, attempts, outcome),
        r == UploadAction::DeleteLocal <==> outcome == UploadOutcome::Confirmed,
{
    match outcome {
        UploadOutcome::Confirmed => UploadAction::DeleteLocal,
        UploadOutcome::Failed => {
            if attempts < policy.max_attempts {
                UploadAction::RetryAfter(backoff_delay(policy, attempts - 1))
            } else {
                UploadAction::LeaveForNextPass
            }
        },
    }
}

/// The outcome of attempt `i` (counting from zero) when the remote store
/// fails the first `failures` attempts and accepts the next.
pub open spec fn scripted(failures: nat, i: nat) -> UploadOutcome {
    if i < failures {
        UploadOutcome::Failed
    } else {
        UploadOutcome::Confirmed
    }
}

/// Against a store that fails the first `failures` attempts, a pass with
/// enough attempts retries after each failure and deletes the local copy
/// only after the confirmed attempt; a pass without enough attempts stops at
/// its bound and leaves the segment on disk.
pub proof fn lemma_retry_until_confirmed(policy: RetryPolicy, failures: nat)
    requires
        policy.valid(),
        failures < u32::MAX,
    ensures
        forall|a: u32|
            1 <= a <= failures && a < policy.max_attempts ==> (#[trigger] next_action(
                policy,
                a,
                scripted(failures, (a - 1) as nat),
            )) is RetryAfter,
        failures < policy.max_attempts ==> next_action(
            policy,
            (failures + 1) as u32,
            scripted(failures, failures),
        ) == UploadAction::DeleteLocal,
        failures >= policy.max_attempts ==> next_action(
            policy,
            policy.max_attempts,
            scripted(failures, (policy.max_attempts - 1) as nat),
        ) == UploadAction::LeaveForNextPass,
        forall|a: u32|
            1 <= a <= failures ==> #[trigger] next_action(
                policy,
                a,
                scripted(failures, (a - 1) as nat),
            ) != UploadAction::DeleteLocal,
{
}

/// The shipper's queue for one discovery pass.
pub struct Shipper {
    policy: RetryPolicy,
    stopping: bool,
    pending: Vec<SegmentName>,
}

impl Shipper {
    /// The retry policy.
    pub closed spec fn policy(&self) -> RetryPolicy {
        self.policy
    }

    /// Whether shutdown has been observed.
    pub closed spec fn is_stopping(&self) -> bool {
        self.stopping
    }

    /// The segments of this pass not yet started, in discovery order.
    pub closed spec fn pending(&self) -> Seq<SegmentName> {
        self.pending@
    }

    /// A shipper with nothing pending.
    pub fn new(policy: RetryPolicy) -> (r: Shipper)
        ensures
            r.policy() == policy,
            !r.is_stopping(),
            r.pending() == Seq::<SegmentName>::empty(),
    {
        Shipper { policy, stopping: false, pending: Vec::new() }
    }

    /// The retry policy.
    pub fn retry_policy(&self) -> (r: RetryPolicy)
        ensures
            r == self.policy(),
    {
        self.policy
    }

    /// Starts a discovery pass over the segments found on disk. A stopping
    /// shipper starts no pass.
    pub fn begin_pass(&mut self, found: Vec<SegmentName>)
        ensures
            final(self).policy() == old(self).policy(),
            final(self).is_stopping() == old(self).is_stopping(),
            final(self).pending() == (if old(self).is_stopping() {
                Seq::<SegmentName>::empty()
            } else {
                found@
            }),
    {
        if self.stopping {
            self.pending = Vec::new();
        } else {
            self.pending = found;
        }
    }

    /// The next segment to upload, in discovery order; none once shutdown
    /// has been observed.
    pub fn next_upload(&mut self) -> (r: Option<SegmentName>)
        ensures
            final(self).policy() == old(self).policy(),
            final(self).is_stopping() == old(self).is_stopping(),
            old(self).is_stopping() || old(self).pending().len() == 0 ==> r.is_none()
                && final(self).pending() == old(self).pending(),
            !old(self).is_stopping() && old(self).pending().len() > 0 ==> r == Some(
                old(self).pending()[0],
            ) && final(self).pending() == old(self).pending().drop_first(),
    {
        if self.stopping || self.pending.len() == 0 {
            return None;
        }
        let n = self.pending.remove(0);
        assert(self.pending@ =~= old(self).pending@.drop_first());
        Some(n)
    }

    /// Observes the shutdown signal: uploads under way may finish, no new one
    /// starts.
    pub fn stop(&mut self)
        ensures
            final(self).is_stopping(),
            final(self).policy() == old(self).policy(),
            final(self).pending() == old(self).pending(),
    {
        self.stopping = true;
    }
}

} // verus!
