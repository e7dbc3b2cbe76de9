//! Retry scheduling: exponential backoff bounded by a maximum interval and
//! by each recipient's fixed expiry deadline, and the application of a
//! classified attempt outcome to a recipient's state.
//!
//! A temporary failure whose computed next-retry time would pass the expiry
//! deadline bounces the recipient at once with a delivery-time-exceeded
//! status instead of leaving it pending.

use crate::message::{step_allowed, DsnEvent, Recipient, Status};
use crate::status::{Outcome, Severity, StatusCode};
use vstd::prelude::*;
use vstd::string::StringSliceAdditionalSpecFns;

verus! {

/// Backoff policy constants; the curve itself is configuration, not part of
/// the engine's correctness.
#[derive(Clone, Copy, PartialEq, Eq, Structural, Debug)]
pub struct RetryPolicy {
    /// Interval before the first retry, in seconds.
    pub first_interval: u64,
    /// Upper bound on any retry interval, in seconds.
    pub max_interval: u64,
}

impl RetryPolicy {
    pub open spec fn wf(&self) -> bool {
        1 <= self.first_interval <= self.max_interval
    }
}

pub open spec fn pow2(n: nat) -> nat
    decreases n,
{
    if n == 0 {
        1
    } else {
        2 * pow2((n - 1) as nat)
    }
}

proof fn lemma_pow2_mono(m: nat, n: nat)
    requires
        m <= n,
    ensures
        pow2(m) <= pow2(n),
    decreases n,
{
    if m < n {
        lemma_pow2_mono(m, (n - 1) as nat);
    }
}

/// The retry interval after `attempts` completed attempts: the first
/// interval doubled once per attempt, capped at the policy maximum.
pub open spec fn backoff_spec(pol: RetryPolicy, attempts: nat) -> int {
    if pol.first_interval * pow2(attempts) >= pol.max_interval {
        pol.max_interval as int
    } else {
        pol.first_interval * pow2(attempts)
    }
}

/// Computes the backoff interval for the next retry.
pub fn backoff(pol: &RetryPolicy, attempts: u32) -> (d: u64)
    requires
        pol.wf(),
    ensures
        d == backoff_spec(*pol, attempts as nat),
        1 <= d <= pol.max_interval,
{
    let mut d: u64 = pol.first_interval;
    let mut k: u32 = 0;
    proof {
        assert(pow2(0) == 1);
    }
    while k < attempts && d < pol.max_interval
        invariant
            pol.wf(),
            k <= attempts,
            if pol.first_interval * pow2(k as nat) >= pol.max_interval {
                d == pol.max_interval
            } else {
                d == pol.first_interval * pow2(k as nat)
            },
        decreases attempts - k,
    {
        proof {
            assert(pow2((k + 1) as nat) == 2 * pow2(k as nat));
            assert(pol.first_interval * pow2((k + 1) as nat) == 2 * (pol.first_interval * pow2(
                k as nat,
            ))) by (nonlinear_arith)
                requires
                    pow2((k + 1) as nat) == 2 * pow2(k as nat),
            ;
        }
        if d > pol.max_interval / 2 {
            d = pol.max_interval;
        } else {
            d = d * 2;
        }
        k = k + 1;
    }
    proof {
        if k < attempts {
            // stopped early because the cap was reached; larger attempt
            // counts keep the cap
            lemma_pow2_mono(k as nat, attempts as nat);
            assert(pol.first_interval * pow2(attempts as nat) >= pol.first_interval * pow2(
                k as nat,
            )) by (nonlinear_arith)
                requires
                    pow2(attempts as nat) >= pow2(k as nat),
                    pol.first_interval >= 1,
            ;
        }
        lemma_pow2_mono(0, k as nat);
        assert(pol.first_interval * pow2(k as nat) >= 1) by (nonlinear_arith)
            requires
                pol.first_interval >= 1,
                pow2(k as nat) >= 1,
        ;
    }
    d
}

/// The status reported when the retry deadline has passed: delivery time
/// exceeded.
pub open spec fn expired_status() -> StatusCode {
    StatusCode { class: 4, subject: 4, detail: 7 }
}

pub open spec fn expired_diag() -> Seq<u8> {
    "delivery time expired".spec_bytes()
}

/// Whether a temporary failure at `now` must bounce outright: the computed
/// next-retry time would pass the recipient's fixed expiry deadline.
pub open spec fn retry_exceeds_expiry(r0: Recipient, now: u64, pol: RetryPolicy) -> bool {
    now + backoff_spec(pol, r0.attempts as nat) > r0.expiry
}

/// The delivery event that recording `out` at `now` produces for a
/// recipient in state `r0`.
pub open spec fn event_of(r0: Recipient, out: Outcome, now: u64, pol: RetryPolicy) -> DsnEvent {
    match out.severity() {
        Severity::Success => DsnEvent::Delivered,
        Severity::Permanent => DsnEvent::Failed,
        Severity::Temporary => if retry_exceeds_expiry(r0, now, pol) {
            DsnEvent::Failed
        } else {
            DsnEvent::Delayed
        },
    }
}

/// How recording `out` at `now` takes a recipient from `r0` to `r1`:
/// success delivers; a permanent failure bounces; a temporary failure
/// either schedules the retry or, when the retry would pass expiry, bounces
/// with the delivery-time-exceeded status.  Identity, preference and the
/// expiry deadline never change, the next-retry time never moves backwards,
/// and the status steps by the lifecycle relation.
pub open spec fn outcome_applied(
    r0: Recipient,
    r1: Recipient,
    out: Outcome,
    now: u64,
    pol: RetryPolicy,
) -> bool {
    &&& step_allowed(r0.status, r1.status)
    &&& r1.history@ == r0.history@.push(r1.status)
    &&& r1.address == r0.address
    &&& r1.domain == r0.domain
    &&& r1.notify == r0.notify
    &&& r1.expiry == r0.expiry
    &&& r1.attempts == r0.attempts + 1
    &&& r1.next_retry >= r0.next_retry
    &&& match out.severity() {
        Severity::Success => {
            &&& r1.status == Status::Delivered
            &&& r1.last_status == out.status()
            &&& r1.last_diag@ == out.diag()
            &&& r1.next_retry == r0.next_retry
        },
        Severity::Permanent => {
            &&& r1.status == Status::Bounced
            &&& r1.last_status == out.status()
            &&& r1.last_diag@ == out.diag()
            &&& r1.next_retry == r0.next_retry
        },
        Severity::Temporary => {
            if retry_exceeds_expiry(r0, now, pol) {
                &&& r1.status == Status::Bounced
                &&& r1.last_status == expired_status()
                &&& r1.last_diag@ == expired_diag()
                &&& r1.next_retry == r0.next_retry
            } else {
                &&& r1.status == Status::Pending
                &&& r1.last_status == out.status()
                &&& r1.last_diag@ == out.diag()
                &&& r1.next_retry == now + backoff_spec(pol, r0.attempts as nat)
            }
        },
    }
}

/// Applies one classified attempt outcome to a recipient that is being
/// attempted, and reports the delivery event that occurred (for DSN
/// generation):
/// - success delivers the recipient;
/// - a permanent failure bounces it at once, whatever the attempt count;
/// - a temporary failure schedules a retry by exponential backoff, unless
///   the computed retry time would pass the fixed expiry deadline, in which
///   case the recipient bounces with the delivery-time-exceeded status.
///
/// The expiry deadline is never changed, the next-retry time never moves
/// backwards, and the status steps by the lifecycle relation.
pub fn record_outcome(r: &mut Recipient, out: &Outcome, now: u64, pol: &RetryPolicy) -> (ev: Option<
    DsnEvent,
>)
    requires
        old(r).wf(),
        old(r).status == Status::InProgress,
        now >= old(r).next_retry,
        old(r).attempts < u32::MAX,
        pol.wf(),
    ensures
        final(r).wf(),
        outcome_applied(*old(r), *final(r), *out, now, *pol),
        ev == Some(event_of(*old(r), *out, now, *pol)),
        step_allowed(old(r).status, final(r).status),
        final(r).history@ == old(r).history@.push(final(r).status),
        final(r).address == old(r).address,
        final(r).domain == old(r).domain,
        final(r).notify == old(r).notify,
        final(r).expiry == old(r).expiry,
        final(r).attempts == old(r).attempts + 1,
        final(r).next_retry >= old(r).next_retry,
        match out.severity() {
            Severity::Success => {
                &&& final(r).status == Status::Delivered
                &&& final(r).last_status == out.status()
                &&& final(r).last_diag@ == out.diag()
                &&& final(r).next_retry == old(r).next_retry
                &&& ev == Some(DsnEvent::Delivered)
            },
            Severity::Permanent => {
                &&& final(r).status == Status::Bounced
                &&& final(r).last_status == out.status()
                &&& final(r).last_diag@ == out.diag()
                &&& final(r).next_retry == old(r).next_retry
                &&& ev == Some(DsnEvent::Failed)
            },
            Severity::Temporary => {
                if now + backoff_spec(*pol, old(r).attempts as nat) > old(r).expiry {
                    &&& final(r).status == Status::Bounced
                    &&& final(r).last_status == expired_status()
                    &&& final(r).last_diag@ == expired_diag()
                    &&& final(r).next_retry == old(r).next_retry
                    &&& ev == Some(DsnEvent::Failed)
                } else {
                    &&& final(r).status == Status::Pending
                    &&& final(r).last_status == out.status()
                    &&& final(r).last_diag@ == out.diag()
                    &&& final(r).next_retry == now + backoff_spec(*pol, old(r).attempts as nat)
                    &&& ev == Some(DsnEvent::Delayed)
                }
            },
        },
{
    r.attempts = r.attempts + 1;
    let (new_status, ev) = match out.sev() {
        Severity::Success => (Status::Delivered, DsnEvent::Delivered),
        Severity::Permanent => (Status::Bounced, DsnEvent::Failed),
        Severity::Temporary => {
            let d = backoff(pol, r.attempts - 1);
            if now > r.expiry || d > r.expiry - now {
                (Status::Bounced, DsnEvent::Failed)
            } else {
                r.next_retry = now + d;
                (Status::Pending, DsnEvent::Delayed)
            }
        },
    };
    match (out.sev(), new_status) {
        (Severity::Temporary, Status::Bounced) => {
            r.last_status = StatusCode { class: 4, subject: 4, detail: 7 };
            r.last_diag = crate::bytes::str_bytes("delivery time expired");
        },
        _ => {
            r.last_status = out.code();
            r.last_diag = crate::bytes::copy_bytes(match out {
                Outcome::Success { diag, .. } => diag,
                Outcome::Temporary { diag, .. } => diag,
                Outcome::Permanent { diag, .. } => diag,
            });
        },
    }
    r.status = new_status;
    proof {
        let h = old(r).history@.push(new_status);
        assert forall|i: int| 0 <= i < h.len() - 1 implies #[trigger] step_allowed(
            h[i],
            h[i + 1],
        ) by {
            if i < old(r).history@.len() - 1 {
                assert(step_allowed(old(r).history@[i], old(r).history@[i + 1]));
            }
        }
    }
    r.history = Ghost(r.history@.push(new_status));
    Some(ev)
}

} // verus!
