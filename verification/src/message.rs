//! The engine's data model: per-recipient delivery status and its lifecycle,
//! notify preferences, per-message extension flags, and the message itself.
//!
//! Each recipient carries a ghost history of every status it has visited;
//! well-formedness ties that history to the allowed lifecycle steps, so the
//! lifecycle law holds of every well-formed recipient.

use crate::status::StatusCode;
use vstd::prelude::*;

verus! {

/// Per-recipient delivery status.
#[derive(Clone, Copy, PartialEq, Eq, Structural, Debug)]
pub enum Status {
    Queued,
    InProgress,
    Pending,
    Delivered,
    Bounced,
}

/// `Delivered` and `Bounced` are terminal: no further attempt may start.
pub open spec fn is_terminal(s: Status) -> bool {
    s == Status::Delivered || s == Status::Bounced
}

/// The single-step transition relation of the recipient lifecycle.
pub open spec fn step_allowed(a: Status, b: Status) -> bool {
    match a {
        Status::Queued => b == Status::InProgress,
        Status::Pending => b == Status::InProgress,
        Status::InProgress => b == Status::Delivered || b == Status::Pending || b
            == Status::Bounced,
        Status::Delivered => false,
        Status::Bounced => false,
    }
}

/// A status history is valid when it starts at `Queued` and every adjacent
/// pair is an allowed lifecycle step.
pub open spec fn valid_history(h: Seq<Status>) -> bool {
    &&& h.len() >= 1
    &&& h[0] == Status::Queued
    &&& forall|i: int| 0 <= i < h.len() - 1 ==> #[trigger] step_allowed(h[i], h[i + 1])
}

/// Law: every valid status history is a prefix of
/// `Queued, InProgress, (Pending, InProgress)*, (Delivered | Bounced)`.
/// Concretely: the history starts at `Queued`; `InProgress` is entered only
/// from `Queued` or `Pending`; `Pending` and the terminal statuses are
/// entered only from `InProgress`; and a terminal status can appear only in
/// the last position, so no recipient is ever attempted again after reaching
/// `Delivered` or `Bounced`.
pub proof fn lemma_lifecycle_shape(h: Seq<Status>)
    requires
        valid_history(h),
    ensures
        h[0] == Status::Queued,
        forall|i: int|
            1 <= i < h.len() && #[trigger] h[i] == Status::InProgress ==> (h[i - 1]
                == Status::Queued || h[i - 1] == Status::Pending),
        forall|i: int|
            1 <= i < h.len() && (#[trigger] h[i] == Status::Pending || is_terminal(h[i])) ==> h[i
                - 1] == Status::InProgress,
        forall|i: int| 0 <= i < h.len() - 1 ==> !is_terminal(#[trigger] h[i]),
{
    assert forall|i: int|
        1 <= i < h.len() && #[trigger] h[i] == Status::InProgress implies (h[i - 1]
        == Status::Queued || h[i - 1] == Status::Pending) by {
        let j = i - 1;
        assert(step_allowed(h[j], h[j + 1]));
    }
    assert forall|i: int|
        1 <= i < h.len() && (#[trigger] h[i] == Status::Pending || is_terminal(h[i])) implies h[i
        - 1] == Status::InProgress by {
        let j = i - 1;
        assert(step_allowed(h[j], h[j + 1]));
    }
    assert forall|i: int| 0 <= i < h.len() - 1 implies !is_terminal(#[trigger] h[i]) by {
        assert(step_allowed(h[i], h[i + 1]));
    }
}

/// Law (recipient lifecycle): the statuses a well-formed recipient has
/// visited form a prefix of
/// `Queued, InProgress, (Pending, InProgress)*, (Delivered | Bounced)`, and
/// once it reaches a terminal status nothing follows: no recipient is ever
/// attempted again after `Delivered` or `Bounced`.
pub proof fn lemma_recipient_lifecycle(r: Recipient)
    requires
        r.wf(),
    ensures
        r.history@[0] == Status::Queued,
        r.history@.last() == r.status,
        forall|i: int| 0 <= i < r.history@.len() - 1 ==> !is_terminal(#[trigger] r.history@[i]),
        forall|i: int|
            1 <= i < r.history@.len() && #[trigger] r.history@[i] == Status::InProgress ==> (
            r.history@[i - 1] == Status::Queued || r.history@[i - 1] == Status::Pending),
        forall|i: int|
            1 <= i < r.history@.len() && (#[trigger] r.history@[i] == Status::Pending
                || is_terminal(r.history@[i])) ==> r.history@[i - 1] == Status::InProgress,
{
    lemma_lifecycle_shape(r.history@);
}

/// Which delivery events warrant a DSN entry for a recipient.
#[derive(Clone, Copy, PartialEq, Eq, Structural, Debug)]
pub struct NotifyPref {
    pub success: bool,
    pub failure: bool,
    pub delay: bool,
    pub never: bool,
}

impl NotifyPref {
    /// `never` excludes every other notify flag.
    pub open spec fn wf(&self) -> bool {
        self.never ==> !self.success && !self.failure && !self.delay
    }

    /// The default preference: notify on failure only.
    pub fn on_failure() -> (r: NotifyPref)
        ensures
            r == (NotifyPref { success: false, failure: true, delay: false, never: false }),
            r.wf(),
    {
        NotifyPref { success: false, failure: true, delay: false, never: false }
    }

    /// The preference that suppresses every notification.
    pub fn suppressed() -> (r: NotifyPref)
        ensures
            r == (NotifyPref { success: false, failure: false, delay: false, never: true }),
            r.wf(),
    {
        NotifyPref { success: false, failure: false, delay: false, never: true }
    }
}

/// A delivery event that may warrant a DSN entry for one recipient.
#[derive(Clone, Copy, PartialEq, Eq, Structural, Debug)]
pub enum DsnEvent {
    Delivered,
    Failed,
    Delayed,
}

/// One recipient of a message: an address plus its delivery state.
pub struct Recipient {
    pub address: Vec<u8>,
    pub domain: Vec<u8>,
    pub notify: NotifyPref,
    pub status: Status,
    /// Attempts completed so far.
    pub attempts: u32,
    /// Earliest time the next attempt may start.
    pub next_retry: u64,
    /// Absolute deadline, fixed at message creation and never extended.
    pub expiry: u64,
    /// Classified status of the last attempt (or of the policy decision that
    /// ended delivery).
    pub last_status: StatusCode,
    /// Diagnostic text of the last attempt.
    pub last_diag: Vec<u8>,
    /// Every status this recipient has visited, most recent last.
    pub history: Ghost<Seq<Status>>,
}

impl Recipient {
    pub open spec fn wf(&self) -> bool {
        &&& self.notify.wf()
        &&& valid_history(self.history@)
        &&& self.history@.last() == self.status
    }

    /// A fresh recipient: `Queued`, no attempts, due immediately at `due`.
    pub fn new(address: Vec<u8>, domain: Vec<u8>, notify: NotifyPref, due: u64, expiry: u64) -> (r:
        Recipient)
        requires
            notify.wf(),
        ensures
            r.wf(),
            r.address == address,
            r.domain == domain,
            r.notify == notify,
            r.status == Status::Queued,
            r.attempts == 0,
            r.next_retry == due,
            r.expiry == expiry,
            r.history@ == seq![Status::Queued],
    {
        Recipient {
            address,
            domain,
            notify,
            status: Status::Queued,
            attempts: 0,
            next_retry: due,
            expiry,
            last_status: StatusCode { class: 0, subject: 0, detail: 0 },
            last_diag: Vec::new(),
            history: Ghost(Seq::empty().push(Status::Queued)),
        }
    }

    /// Marks the recipient as being attempted.  Only a non-terminal, due
    /// recipient may be attempted.
    pub fn begin_attempt(&mut self, now: u64)
        requires
            old(self).wf(),
            old(self).status == Status::Queued || old(self).status == Status::Pending,
            now >= old(self).next_retry,
        ensures
            final(self).wf(),
            final(self).status == Status::InProgress,
            step_allowed(old(self).status, final(self).status),
            final(self).history@ == old(self).history@.push(Status::InProgress),
            final(self).address == old(self).address,
            final(self).domain == old(self).domain,
            final(self).notify == old(self).notify,
            final(self).attempts == old(self).attempts,
            final(self).next_retry == old(self).next_retry,
            final(self).expiry == old(self).expiry,
            final(self).last_status == old(self).last_status,
            final(self).last_diag == old(self).last_diag,
    {
        proof {
            let h = self.history@.push(Status::InProgress);
            assert forall|i: int| 0 <= i < h.len() - 1 implies #[trigger] step_allowed(h[i], h[i + 1]) by {
                if i < old(self).history@.len() - 1 {
                    assert(step_allowed(old(self).history@[i], old(self).history@[i + 1]));
                }
            }
        }
        self.status = Status::InProgress;
        self.history = Ghost(self.history@.push(Status::InProgress));
    }
}

/// Per-message extension requests.
#[derive(Clone, Copy, PartialEq, Eq, Structural, Debug)]
pub struct MsgFlags {
    /// Ask the peer to honor DSN parameters.
    pub request_dsn: bool,
    /// Request size negotiation: announce the body size up front.
    pub want_size: bool,
    /// Mandatory transport security: never deliver over plaintext.
    pub require_tls: bool,
    /// The body needs UTF-8 support from the peer.
    pub utf8: bool,
}

/// Per-message envelope metadata.
#[derive(Debug)]
pub struct Params {
    pub flags: MsgFlags,
    /// Opaque envelope identifier for DSN correlation.
    pub env_id: Option<Vec<u8>>,
    /// DSN content preference: only the original headers, or the full body.
    pub headers_only: bool,
}

/// One outbound message: immutable body and envelope plus its recipients.
pub struct Message {
    pub sender: Vec<u8>,
    pub params: Params,
    pub body: Vec<u8>,
    pub recipients: Vec<Recipient>,
    /// Set on messages that are themselves DSNs; such messages never generate
    /// further DSNs.
    pub is_dsn: bool,
}

impl Message {
    pub open spec fn wf(&self) -> bool {
        forall|i: int| 0 <= i < self.recipients@.len() ==> (#[trigger] self.recipients@[i]).wf()
    }

    /// Whether every recipient has reached a terminal status.
    pub open spec fn all_terminal(&self) -> bool {
        forall|i: int|
            0 <= i < self.recipients@.len() ==> is_terminal((#[trigger] self.recipients@[i]).status)
    }
}

} // verus!
