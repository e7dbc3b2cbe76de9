//! The queue manager: picking the batch of due recipients that share a
//! destination domain, marking them in progress, applying the classified
//! outcomes of one delivery attempt, and retiring a message once every
//! recipient is terminal and its DSN (if one was owed) has been enqueued.

use crate::bytes::bytes_eq;
use crate::message::{is_terminal, DsnEvent, Message, Recipient, Status};
use crate::retry::{event_of, outcome_applied, record_outcome, RetryPolicy};
use crate::status::Outcome;
use vstd::prelude::*;

verus! {

/// A recipient is due when it awaits an attempt and its retry clock has
/// elapsed; recipients whose clocks have not elapsed are skipped.
pub open spec fn is_due(r: Recipient, now: u64) -> bool {
    &&& (r.status == Status::Queued || r.status == Status::Pending)
    &&& r.next_retry <= now
}

fn due(r: &Recipient, now: u64) -> (b: bool)
    ensures
        b == is_due(*r, now),
{
    (matches!(r.status, Status::Queued) || matches!(r.status, Status::Pending)) && r.next_retry
        <= now
}

/// How `begin_attempt` takes a recipient from `r0` to `r1`.
pub open spec fn begun_from(r0: Recipient, r1: Recipient) -> bool {
    &&& r1.status == Status::InProgress
    &&& r1.history@ == r0.history@.push(Status::InProgress)
    &&& r1.address == r0.address
    &&& r1.domain == r0.domain
    &&& r1.notify == r0.notify
    &&& r1.attempts == r0.attempts
    &&& r1.next_retry == r0.next_retry
    &&& r1.expiry == r0.expiry
    &&& r1.last_status == r0.last_status
    &&& r1.last_diag == r0.last_diag
}

/// Picks the next batch of work for a message at `now`: the first due
/// recipient fixes the destination domain, and every due recipient of that
/// domain joins the batch, so recipients of one message addressed to the
/// same domain are attempted together.  Returns the recipients' indices in
/// ascending order, or nothing when no recipient is due.
pub fn next_batch(msg: &Message, now: u64) -> (r: Option<Vec<usize>>)
    ensures
        match r {
            Some(idx) => {
                &&& idx@.len() > 0
                &&& forall|j: int|
                    0 <= j < idx@.len() ==> (#[trigger] idx@[j]) < msg.recipients@.len()
                &&& forall|j: int|
                    0 <= j < idx@.len() ==> is_due(
                        msg.recipients@[(#[trigger] idx@[j]) as int],
                        now,
                    )
                &&& forall|j: int|
                    0 <= j < idx@.len() ==> msg.recipients@[(#[trigger] idx@[j]) as int].domain@
                        == msg.recipients@[idx@[0] as int].domain@
                &&& forall|j1: int, j2: int|
                    0 <= j1 < j2 < idx@.len() ==> idx@[j1] < idx@[j2]
                &&& forall|i: int|
                    0 <= i < msg.recipients@.len() && is_due(#[trigger] msg.recipients@[i], now)
                        && msg.recipients@[i].domain@ == msg.recipients@[idx@[0] as int].domain@
                        ==> idx@.contains(i as usize)
                &&& forall|i: int|
                    0 <= i < idx@[0] as int ==> !is_due(#[trigger] msg.recipients@[i], now)
            },
            None => forall|i: int|
                0 <= i < msg.recipients@.len() ==> !is_due(#[trigger] msg.recipients@[i], now),
        },
{
    let n = msg.recipients.len();
    let mut f: usize = 0;
    while f < n && !due(&msg.recipients[f], now)
        invariant
            f <= n,
            n == msg.recipients@.len(),
            forall|i: int| 0 <= i < f ==> !is_due(#[trigger] msg.recipients@[i], now),
        decreases n - f,
    {
        f = f + 1;
    }
    if f == n {
        return None;
    }
    let mut idx: Vec<usize> = Vec::new();
    idx.push(f);
    proof {
        assert(idx@[0] == f);
        assert(idx@.contains(f));
    }
    let mut k: usize = f + 1;
    while k < n
        invariant
            f < k <= n,
            n == msg.recipients@.len(),
            idx@.len() > 0,
            idx@[0] == f,
            forall|j: int| 0 <= j < idx@.len() ==> (#[trigger] idx@[j]) < k,
            forall|j: int|
                0 <= j < idx@.len() ==> is_due(msg.recipients@[(#[trigger] idx@[j]) as int], now),
            forall|j: int|
                0 <= j < idx@.len() ==> msg.recipients@[(#[trigger] idx@[j]) as int].domain@
                    == msg.recipients@[f as int].domain@,
            forall|j1: int, j2: int| 0 <= j1 < j2 < idx@.len() ==> idx@[j1] < idx@[j2],
            forall|i: int|
                0 <= i < k && is_due(#[trigger] msg.recipients@[i], now)
                    && msg.recipients@[i].domain@ == msg.recipients@[f as int].domain@
                    ==> idx@.contains(i as usize),
            forall|i: int| 0 <= i < f ==> !is_due(#[trigger] msg.recipients@[i], now),
        decreases n - k,
    {
        let ghost idx0 = idx@;
        if due(&msg.recipients[k], now) && bytes_eq(
            &msg.recipients[k].domain,
            &msg.recipients[f].domain,
        ) {
            idx.push(k);
        }
        proof {
            assert forall|i: int|
                0 <= i < k + 1 && is_due(#[trigger] msg.recipients@[i], now)
                    && msg.recipients@[i].domain@ == msg.recipients@[f as int].domain@ implies idx@
                .contains(i as usize) by {
                if i < k {
                    assert(idx0.contains(i as usize));
                    let w = choose|w: int| 0 <= w < idx0.len() && idx0[w] == i as usize;
                    assert(idx@[w] == i as usize);
                } else {
                    assert(idx@[idx@.len() - 1] == i as usize);
                }
            }
        }
        k = k + 1;
    }
    Some(idx)
}

/// Marks every recipient of the batch as being attempted.  Recipients
/// outside the batch are untouched; per-recipient status transitions stay
/// strictly ordered, so no terminal recipient can be here.
pub fn begin_batch(msg: &mut Message, idx: &Vec<usize>, now: u64)
    requires
        old(msg).wf(),
        forall|j: int|
            0 <= j < idx@.len() ==> (#[trigger] idx@[j]) < old(msg).recipients@.len(),
        forall|j1: int, j2: int| 0 <= j1 < j2 < idx@.len() ==> idx@[j1] < idx@[j2],
        forall|j: int|
            0 <= j < idx@.len() ==> is_due(old(msg).recipients@[(#[trigger] idx@[j]) as int], now),
    ensures
        final(msg).wf(),
        final(msg).recipients@.len() == old(msg).recipients@.len(),
        final(msg).sender == old(msg).sender,
        final(msg).params == old(msg).params,
        final(msg).body == old(msg).body,
        final(msg).is_dsn == old(msg).is_dsn,
        forall|j: int|
            0 <= j < idx@.len() ==> begun_from(
                old(msg).recipients@[(#[trigger] idx@[j]) as int],
                final(msg).recipients@[idx@[j] as int],
            ),
        forall|i: int|
            0 <= i < old(msg).recipients@.len() && !idx@.contains(i as usize)
                ==> (#[trigger] final(msg).recipients@[i]) == old(msg).recipients@[i],
{
    let mut j: usize = 0;
    while j < idx.len()
        invariant
            j <= idx@.len(),
            msg.recipients@.len() == old(msg).recipients@.len(),
            msg.sender == old(msg).sender,
            msg.params == old(msg).params,
            msg.body == old(msg).body,
            msg.is_dsn == old(msg).is_dsn,
            forall|jj: int|
                0 <= jj < idx@.len() ==> (#[trigger] idx@[jj]) < old(msg).recipients@.len(),
            forall|j1: int, j2: int| 0 <= j1 < j2 < idx@.len() ==> idx@[j1] < idx@[j2],
            forall|jj: int|
                0 <= jj < idx@.len() ==> is_due(
                    old(msg).recipients@[(#[trigger] idx@[jj]) as int],
                    now,
                ),
            forall|jj: int|
                0 <= jj < j ==> begun_from(
                    old(msg).recipients@[(#[trigger] idx@[jj]) as int],
                    msg.recipients@[idx@[jj] as int],
                ),
            forall|i: int|
                0 <= i < old(msg).recipients@.len() && !idx@.subrange(0, j as int).contains(
                    i as usize,
                ) ==> (#[trigger] msg.recipients@[i]) == old(msg).recipients@[i],
            forall|i: int|
                0 <= i < old(msg).recipients@.len() ==> (#[trigger] msg.recipients@[i]).wf(),
        decreases idx@.len() - j,
    {
        let i = idx[j];
        proof {
            assert(!idx@.subrange(0, j as int).contains(idx@[j as int])) by {
                if idx@.subrange(0, j as int).contains(idx@[j as int]) {
                    let w = choose|w: int|
                        0 <= w < j && idx@.subrange(0, j as int)[w] == idx@[j as int];
                    assert(idx@[w] < idx@[j as int]);
                }
            }
            assert(msg.recipients@[i as int] == old(msg).recipients@[i as int]);
        }
        let ghost before = msg.recipients@;
        msg.recipients[i].begin_attempt(now);
        proof {
            assert forall|i2: int|
                0 <= i2 < old(msg).recipients@.len() && !idx@.subrange(0, j as int + 1).contains(
                    i2 as usize,
                ) implies (#[trigger] msg.recipients@[i2]) == old(msg).recipients@[i2] by {
                if i2 != i as int {
                    assert(!idx@.subrange(0, j as int).contains(i2 as usize)) by {
                        if idx@.subrange(0, j as int).contains(i2 as usize) {
                            let w = choose|w: int|
                                0 <= w < j && idx@.subrange(0, j as int)[w] == i2 as usize;
                            assert(idx@.subrange(0, j as int + 1)[w] == i2 as usize);
                        }
                    }
                    assert(msg.recipients@[i2] == before[i2]);
                } else {
                    assert(idx@.subrange(0, j as int + 1)[j as int] == i);
                }
            }
            assert forall|jj: int|
                0 <= jj < j + 1 implies begun_from(
                old(msg).recipients@[(#[trigger] idx@[jj]) as int],
                msg.recipients@[idx@[jj] as int],
            ) by {
                if jj < j {
                    assert(idx@[jj] < idx@[j as int]);
                    assert(msg.recipients@[idx@[jj] as int] == before[idx@[jj] as int]);
                }
            }
        }
        j = j + 1;
    }
    proof {
        assert(idx@.subrange(0, idx@.len() as int) == idx@);
    }
}

/// Applies the classified outcome of one attempt to every recipient of the
/// batch, and returns, aligned with the message's recipients, the delivery
/// event (if any) that occurred for each — the input of DSN generation.
/// Recipients outside the batch are untouched and get no event.
pub fn apply_outcomes(
    msg: &mut Message,
    idx: &Vec<usize>,
    outcomes: &Vec<Outcome>,
    now: u64,
    pol: &RetryPolicy,
) -> (evs: Vec<Option<DsnEvent>>)
    requires
        old(msg).wf(),
        pol.wf(),
        outcomes@.len() == idx@.len(),
        forall|j: int|
            0 <= j < idx@.len() ==> (#[trigger] idx@[j]) < old(msg).recipients@.len(),
        forall|j1: int, j2: int| 0 <= j1 < j2 < idx@.len() ==> idx@[j1] < idx@[j2],
        forall|j: int|
            0 <= j < idx@.len() ==> {
                let r = old(msg).recipients@[(#[trigger] idx@[j]) as int];
                &&& r.status == Status::InProgress
                &&& now >= r.next_retry
                &&& r.attempts < u32::MAX
            },
    ensures
        final(msg).wf(),
        final(msg).recipients@.len() == old(msg).recipients@.len(),
        final(msg).sender == old(msg).sender,
        final(msg).params == old(msg).params,
        final(msg).body == old(msg).body,
        final(msg).is_dsn == old(msg).is_dsn,
        evs@.len() == old(msg).recipients@.len(),
        forall|j: int|
            0 <= j < idx@.len() ==> outcome_applied(
                old(msg).recipients@[(#[trigger] idx@[j]) as int],
                final(msg).recipients@[idx@[j] as int],
                outcomes@[j],
                now,
                *pol,
            ),
        forall|j: int|
            0 <= j < idx@.len() ==> evs@[(#[trigger] idx@[j]) as int] == Some(
                event_of(old(msg).recipients@[idx@[j] as int], outcomes@[j], now, *pol),
            ),
        forall|i: int|
            0 <= i < old(msg).recipients@.len() && !idx@.contains(i as usize) ==> {
                &&& (#[trigger] final(msg).recipients@[i]) == old(msg).recipients@[i]
                &&& evs@[i] is None
            },
{
    let n = msg.recipients.len();
    let mut evs: Vec<Option<DsnEvent>> = Vec::new();
    while evs.len() < n
        invariant
            evs@.len() <= n,
            forall|i: int| 0 <= i < evs@.len() ==> (#[trigger] evs@[i]) is None,
        decreases n - evs@.len(),
    {
        evs.push(None);
    }
    let mut j: usize = 0;
    while j < idx.len()
        invariant
            j <= idx@.len(),
            outcomes@.len() == idx@.len(),
            pol.wf(),
            evs@.len() == old(msg).recipients@.len(),
            msg.recipients@.len() == old(msg).recipients@.len(),
            msg.sender == old(msg).sender,
            msg.params == old(msg).params,
            msg.body == old(msg).body,
            msg.is_dsn == old(msg).is_dsn,
            forall|jj: int|
                0 <= jj < idx@.len() ==> (#[trigger] idx@[jj]) < old(msg).recipients@.len(),
            forall|j1: int, j2: int| 0 <= j1 < j2 < idx@.len() ==> idx@[j1] < idx@[j2],
            forall|jj: int|
                0 <= jj < idx@.len() ==> {
                    let r = old(msg).recipients@[(#[trigger] idx@[jj]) as int];
                    &&& r.status == Status::InProgress
                    &&& now >= r.next_retry
                    &&& r.attempts < u32::MAX
                },
            forall|jj: int|
                0 <= jj < j ==> outcome_applied(
                    old(msg).recipients@[(#[trigger] idx@[jj]) as int],
                    msg.recipients@[idx@[jj] as int],
                    outcomes@[jj],
                    now,
                    *pol,
                ),
            forall|jj: int|
                0 <= jj < j ==> evs@[(#[trigger] idx@[jj]) as int] == Some(
                    event_of(old(msg).recipients@[idx@[jj] as int], outcomes@[jj], now, *pol),
                ),
            forall|i: int|
                0 <= i < old(msg).recipients@.len() && !idx@.subrange(0, j as int).contains(
                    i as usize,
                ) ==> {
                    &&& (#[trigger] msg.recipients@[i]) == old(msg).recipients@[i]
                    &&& evs@[i] is None
                },
            forall|i: int|
                0 <= i < old(msg).recipients@.len() ==> (#[trigger] msg.recipients@[i]).wf(),
        decreases idx@.len() - j,
    {
        let i = idx[j];
        proof {
            assert(!idx@.subrange(0, j as int).contains(idx@[j as int])) by {
                if idx@.subrange(0, j as int).contains(idx@[j as int]) {
                    let w = choose|w: int|
                        0 <= w < j && idx@.subrange(0, j as int)[w] == idx@[j as int];
                    assert(idx@[w] < idx@[j as int]);
                }
            }
            assert(msg.recipients@[i as int] == old(msg).recipients@[i as int]);
        }
        let ghost before = msg.recipients@;
        let ghost evs_before = evs@;
        let ev = record_outcome(&mut msg.recipients[i], &outcomes[j], now, pol);
        match ev {
            Some(e) => evs.set(i, Some(e)),
            None => evs.set(i, None),
        }
        proof {
            assert forall|i2: int|
                0 <= i2 < old(msg).recipients@.len() && !idx@.subrange(0, j as int + 1).contains(
                    i2 as usize,
                ) implies {
                &&& (#[trigger] msg.recipients@[i2]) == old(msg).recipients@[i2]
                &&& evs@[i2] is None
            } by {
                if i2 != i as int {
                    assert(!idx@.subrange(0, j as int).contains(i2 as usize)) by {
                        if idx@.subrange(0, j as int).contains(i2 as usize) {
                            let w = choose|w: int|
                                0 <= w < j && idx@.subrange(0, j as int)[w] == i2 as usize;
                            assert(idx@.subrange(0, j as int + 1)[w] == i2 as usize);
                        }
                    }
                    assert(msg.recipients@[i2] == before[i2]);
                    assert(evs@[i2] == evs_before[i2]);
                } else {
                    assert(idx@.subrange(0, j as int + 1)[j as int] == i);
                }
            }
            assert forall|jj: int|
                0 <= jj < j + 1 implies outcome_applied(
                old(msg).recipients@[(#[trigger] idx@[jj]) as int],
                msg.recipients@[idx@[jj] as int],
                outcomes@[jj],
                now,
                *pol,
            ) by {
                if jj < j {
                    assert(idx@[jj] < idx@[j as int]);
                    assert(msg.recipients@[idx@[jj] as int] == before[idx@[jj] as int]);
                }
            }
            assert forall|jj: int|
                0 <= jj < j + 1 implies evs@[(#[trigger] idx@[jj]) as int] == Some(
                event_of(old(msg).recipients@[idx@[jj] as int], outcomes@[jj], now, *pol),
            ) by {
                if jj < j {
                    assert(idx@[jj] < idx@[j as int]);
                    assert(evs@[idx@[jj] as int] == evs_before[idx@[jj] as int]);
                }
            }
        }
        j = j + 1;
    }
    proof {
        assert(idx@.subrange(0, idx@.len() as int) == idx@);
    }
    evs
}

/// Whether every recipient of the message has reached a terminal status, so
/// that the message may leave the queue.
pub fn can_retire(msg: &Message) -> (r: bool)
    ensures
        r == msg.all_terminal(),
{
    let mut k: usize = 0;
    while k < msg.recipients.len()
        invariant
            k <= msg.recipients@.len(),
            forall|i: int|
                0 <= i < k ==> is_terminal((#[trigger] msg.recipients@[i]).status),
        decreases msg.recipients@.len() - k,
    {
        if !(matches!(msg.recipients[k].status, Status::Delivered) || matches!(
            msg.recipients[k].status,
            Status::Bounced,
        )) {
            return false;
        }
        k = k + 1;
    }
    true
}

/// The set of live outbound messages.
pub struct DeliveryQueue {
    pub messages: Vec<Message>,
}

impl DeliveryQueue {
    pub open spec fn wf(&self) -> bool {
        forall|i: int| 0 <= i < self.messages@.len() ==> (#[trigger] self.messages@[i]).wf()
    }

    pub fn new() -> (q: DeliveryQueue)
        ensures
            q.wf(),
            q.messages@.len() == 0,
    {
        DeliveryQueue { messages: Vec::new() }
    }

    /// Accepts a message (or an injected DSN) into the queue.
    pub fn enqueue(&mut self, m: Message)
        requires
            old(self).wf(),
            m.wf(),
        ensures
            final(self).wf(),
            final(self).messages@ == old(self).messages@.push(m),
    {
        self.messages.push(m);
    }

    /// Retires message `i`, enqueuing its DSN first when one was generated.
    /// A message leaves the queue only when every recipient is terminal.
    pub fn finish_message(&mut self, i: usize, dsn: Option<Message>)
        requires
            old(self).wf(),
            i < old(self).messages@.len(),
            old(self).messages@[i as int].all_terminal(),
            dsn matches Some(d) ==> d.wf(),
        ensures
            final(self).wf(),
            match dsn {
                Some(d) => final(self).messages@ == old(self).messages@.push(d).remove(i as int),
                None => final(self).messages@ == old(self).messages@.remove(i as int),
            },
    {
        match dsn {
            Some(d) => {
                self.messages.push(d);
                self.messages.remove(i);
            },
            None => {
                self.messages.remove(i);
            },
        }
    }
}

} // verus!
