//! One delivery attempt over an established connection: the policy checks
//! that run before any envelope data is sent, the classification of the
//! peer's replies for each transaction stage, and the extension parameters
//! announced with the sender and each recipient.
//!
//! The wire exchange itself happens outside the engine; replies arrive here
//! as plain code/text pairs.

use crate::bytes::{append_dec, append_str, append_vec, dec_str};
use crate::message::{MsgFlags, NotifyPref, Params};
use crate::status::{
    classified_severity, classified_status, classify, clipped_diag, Outcome, Severity, StatusCode,
};
use vstd::prelude::*;
use vstd::string::StringSliceAdditionalSpecFns;

verus! {

/// The capabilities negotiated with a peer after the handshake.
#[derive(Clone, Copy, PartialEq, Eq, Debug)]
pub struct Capabilities {
    /// Message-size limit, if the peer advertised one.
    pub size_limit: Option<u64>,
    /// The peer honors delivery-status-notification parameters.
    pub dsn: bool,
    /// The peer accepts international (UTF-8) addresses and bodies.
    pub utf8: bool,
    /// The channel was upgraded to transport security.
    pub tls: bool,
}

/// One raw reply from the peer.
pub struct Reply {
    pub code: u16,
    pub text: Vec<u8>,
}

/// How a classified outcome relates to the reply it was derived from.
pub open spec fn outcome_of_reply(rep: Reply, o: Outcome) -> bool {
    &&& o.severity() == classified_severity(rep.code, rep.text@)
    &&& o.status() == classified_status(rep.code, rep.text@)
    &&& o.diag() == clipped_diag(rep.text@)
}

/// Classifies one reply from the peer.
pub fn classify_reply(rep: &Reply) -> (o: Outcome)
    ensures
        outcome_of_reply(*rep, o),
        o.wf(),
{
    classify(rep.code, &rep.text)
}

/// Whether the reply means the command was accepted.
pub fn reply_accepted(rep: &Reply) -> (r: bool)
    ensures
        r == (classified_severity(rep.code, rep.text@) == Severity::Success),
{
    let o = classify_reply(rep);
    matches!(o.sev(), Severity::Success)
}

/// The decision taken for one recipient before any envelope data is sent.
#[derive(Clone, Copy, PartialEq, Eq, Structural, Debug)]
pub enum Verdict {
    /// The recipient takes part in the transaction.
    Proceed,
    /// Mandatory transport security cannot be satisfied: permanent failure,
    /// nothing is transmitted.
    FailSecurity,
    /// The recipient's address needs a capability the peer lacks.
    FailCapability,
    /// The body exceeds the peer's size limit.
    FailSize,
}

/// An address needs UTF-8 support when it holds a non-ASCII byte.
pub open spec fn needs_utf8(addr: Seq<u8>) -> bool {
    exists|i: int| 0 <= i < addr.len() && addr[i] >= 0x80
}

/// The pre-transaction verdict for one recipient, in order of precedence:
/// mandatory transport security unsatisfied, then address/capability
/// mismatch, then body over the advertised size limit, else proceed.
pub open spec fn pre_verdict(
    flags: MsgFlags,
    caps: Capabilities,
    body_len: u64,
    addr: Seq<u8>,
) -> Verdict {
    if flags.require_tls && !caps.tls {
        Verdict::FailSecurity
    } else if needs_utf8(addr) && !caps.utf8 {
        Verdict::FailCapability
    } else if caps.size_limit matches Some(limit) && body_len > limit {
        Verdict::FailSize
    } else {
        Verdict::Proceed
    }
}

fn addr_needs_utf8(addr: &Vec<u8>) -> (r: bool)
    ensures
        r == needs_utf8(addr@),
{
    let mut k: usize = 0;
    while k < addr.len()
        invariant
            k <= addr@.len(),
            forall|i: int| 0 <= i < k ==> addr@[i] < 0x80,
        decreases addr@.len() - k,
    {
        if addr[k] >= 0x80 {
            return true;
        }
        k = k + 1;
    }
    false
}

/// Decides the pre-transaction verdict for one recipient.
pub fn pre_check(flags: &MsgFlags, caps: &Capabilities, body_len: u64, addr: &Vec<u8>) -> (v:
    Verdict)
    ensures
        v == pre_verdict(*flags, *caps, body_len, addr@),
{
    if flags.require_tls && !caps.tls {
        Verdict::FailSecurity
    } else if addr_needs_utf8(addr) && !caps.utf8 {
        Verdict::FailCapability
    } else {
        match caps.size_limit {
            Some(limit) if body_len > limit => Verdict::FailSize,
            _ => Verdict::Proceed,
        }
    }
}

/// The status reported when mandatory transport security cannot be met.
pub open spec fn security_status() -> StatusCode {
    StatusCode { class: 5, subject: 7, detail: 4 }
}

pub open spec fn security_diag() -> Seq<u8> {
    "transport security required but not available".spec_bytes()
}

/// The status reported when the peer lacks a capability the address needs.
pub open spec fn capability_status() -> StatusCode {
    StatusCode { class: 5, subject: 6, detail: 7 }
}

pub open spec fn capability_diag() -> Seq<u8> {
    "address requires a capability the peer does not support".spec_bytes()
}

/// The status reported when the body exceeds the negotiated size limit.
pub open spec fn size_status() -> StatusCode {
    StatusCode { class: 5, subject: 3, detail: 4 }
}

pub open spec fn size_diag() -> Seq<u8> {
    "message size exceeds the limit announced by the peer".spec_bytes()
}

/// What a failing verdict means as a classified outcome.  Every failing
/// verdict is a permanent failure; `Proceed` carries no outcome.
pub open spec fn verdict_outcome_ok(v: Verdict, o: Option<Outcome>) -> bool {
    match v {
        Verdict::Proceed => o is None,
        Verdict::FailSecurity => o matches Some(f) && f.severity() == Severity::Permanent
            && f.status() == security_status() && f.diag() == security_diag(),
        Verdict::FailCapability => o matches Some(f) && f.severity() == Severity::Permanent
            && f.status() == capability_status() && f.diag() == capability_diag(),
        Verdict::FailSize => o matches Some(f) && f.severity() == Severity::Permanent && f.status()
            == size_status() && f.diag() == size_diag(),
    }
}

/// Builds the outcome a failing verdict stands for.
pub fn verdict_outcome(v: Verdict) -> (o: Option<Outcome>)
    ensures
        verdict_outcome_ok(v, o),
{
    match v {
        Verdict::Proceed => None,
        Verdict::FailSecurity => Some(
            Outcome::Permanent {
                status: StatusCode { class: 5, subject: 7, detail: 4 },
                diag: crate::bytes::str_bytes("transport security required but not available"),
            },
        ),
        Verdict::FailCapability => Some(
            Outcome::Permanent {
                status: StatusCode { class: 5, subject: 6, detail: 7 },
                diag: crate::bytes::str_bytes("address requires a capability the peer does not support"),
            },
        ),
        Verdict::FailSize => Some(
            Outcome::Permanent {
                status: StatusCode { class: 5, subject: 3, detail: 4 },
                diag: crate::bytes::str_bytes("message size exceeds the limit announced by the peer"),
            },
        ),
    }
}

/// Whether any recipient of the batch takes part in the transaction; when no
/// verdict is `Proceed`, the connection is not used and no body byte is
/// transmitted.
pub open spec fn transmit_allowed(vs: Seq<Verdict>) -> bool {
    exists|i: int| 0 <= i < vs.len() && vs[i] == Verdict::Proceed
}

/// Decides whether the transaction runs at all.
pub fn may_transmit(vs: &Vec<Verdict>) -> (r: bool)
    ensures
        r == transmit_allowed(vs@),
{
    let mut k: usize = 0;
    while k < vs.len()
        invariant
            k <= vs@.len(),
            forall|i: int| 0 <= i < k ==> vs@[i] != Verdict::Proceed,
        decreases vs@.len() - k,
    {
        if matches!(vs[k], Verdict::Proceed) {
            return true;
        }
        k = k + 1;
    }
    false
}

/// Law (mandatory transport security): when the message requires transport
/// security and the peer's channel does not provide it, every recipient's
/// verdict is the permanent security failure — whatever its address and
/// whatever the body size — and, since no verdict proceeds, no body byte is
/// transmitted.
pub proof fn lemma_security_blocks_batch(
    flags: MsgFlags,
    caps: Capabilities,
    body_len: u64,
    addrs: Seq<Seq<u8>>,
)
    requires
        flags.require_tls,
        !caps.tls,
    ensures
        forall|i: int|
            0 <= i < addrs.len() ==> pre_verdict(flags, caps, body_len, #[trigger] addrs[i])
                == Verdict::FailSecurity,
        !transmit_allowed(addrs.map_values(|a: Seq<u8>| pre_verdict(flags, caps, body_len, a))),
{
    let vs = addrs.map_values(|a: Seq<u8>| pre_verdict(flags, caps, body_len, a));
    assert forall|i: int| 0 <= i < vs.len() implies vs[i] != Verdict::Proceed by {
        assert(vs[i] == pre_verdict(flags, caps, body_len, addrs[i]));
    }
}

/// Law (size limit): when the peer advertised a size limit smaller than the
/// body, no recipient proceeds — each one fails the security, capability or
/// size check, all of them permanent — so the body is never transmitted; a
/// recipient that passed the earlier checks fails with the over-limit
/// status.
pub proof fn lemma_oversize_blocks_batch(
    flags: MsgFlags,
    caps: Capabilities,
    body_len: u64,
    addrs: Seq<Seq<u8>>,
    limit: u64,
)
    requires
        caps.size_limit == Some(limit),
        body_len > limit,
    ensures
        forall|i: int|
            0 <= i < addrs.len() ==> pre_verdict(flags, caps, body_len, #[trigger] addrs[i])
                != Verdict::Proceed,
        !transmit_allowed(addrs.map_values(|a: Seq<u8>| pre_verdict(flags, caps, body_len, a))),
        forall|i: int|
            0 <= i < addrs.len() && !(flags.require_tls && !caps.tls) && !(needs_utf8(
                #[trigger] addrs[i],
            ) && !caps.utf8) ==> pre_verdict(flags, caps, body_len, addrs[i]) == Verdict::FailSize,
{
    let vs = addrs.map_values(|a: Seq<u8>| pre_verdict(flags, caps, body_len, a));
    assert forall|i: int| 0 <= i < vs.len() implies vs[i] != Verdict::Proceed by {
        assert(vs[i] == pre_verdict(flags, caps, body_len, addrs[i]));
    }
}

/// Why a transport connection to a candidate host failed.  All of these are
/// transient: they feed the retry scheduler and never directly bounce a
/// recipient before its expiry.
#[derive(Clone, Copy, PartialEq, Eq, Structural, Debug)]
pub enum ConnectError {
    Refused,
    Timeout,
    Reset,
}

/// The status reported for a failed connection attempt.
pub open spec fn connect_status(e: ConnectError) -> StatusCode {
    match e {
        ConnectError::Refused => StatusCode { class: 4, subject: 4, detail: 1 },
        ConnectError::Timeout => StatusCode { class: 4, subject: 4, detail: 1 },
        ConnectError::Reset => StatusCode { class: 4, subject: 4, detail: 2 },
    }
}

/// The outcome a failed connection attempt stands for: always a temporary
/// failure, so the recipients go back to the retry scheduler.
pub fn connect_outcome(e: ConnectError) -> (o: Outcome)
    ensures
        o.severity() == Severity::Temporary,
        o.status() == connect_status(e),
{
    match e {
        ConnectError::Refused => Outcome::Temporary {
            status: StatusCode { class: 4, subject: 4, detail: 1 },
            diag: crate::bytes::str_bytes("connection refused by host"),
        },
        ConnectError::Timeout => Outcome::Temporary {
            status: StatusCode { class: 4, subject: 4, detail: 1 },
            diag: crate::bytes::str_bytes("connection attempt timed out"),
        },
        ConnectError::Reset => Outcome::Temporary {
            status: StatusCode { class: 4, subject: 4, detail: 2 },
            diag: crate::bytes::str_bytes("connection lost"),
        },
    }
}

/// Result of the recipient phase for recipients that proceeded past the
/// pre-checks: `None` when the peer accepted the recipient (it awaits the
/// body), `Some` classified failure when the peer rejected it; a rejection
/// of one recipient never touches the others.
pub fn rcpt_phase(replies: &Vec<Reply>) -> (out: Vec<Option<Outcome>>)
    ensures
        out@.len() == replies@.len(),
        forall|i: int|
            0 <= i < replies@.len() ==> rcpt_item_ok(replies@[i], #[trigger] out@[i]),
{
    let mut out: Vec<Option<Outcome>> = Vec::new();
    let mut k: usize = 0;
    while k < replies.len()
        invariant
            k <= replies@.len(),
            out@.len() == k,
            forall|i: int| 0 <= i < k ==> rcpt_item_ok(replies@[i], #[trigger] out@[i]),
        decreases replies@.len() - k,
    {
        let o = classify_reply(&replies[k]);
        match o.sev() {
            Severity::Success => out.push(None),
            _ => out.push(Some(o)),
        }
        k = k + 1;
    }
    out
}

/// How one recipient-phase slot relates to the peer's reply: accepted
/// recipients are still pending, rejected ones carry the classified failure.
pub open spec fn rcpt_item_ok(rep: Reply, o: Option<Outcome>) -> bool {
    if classified_severity(rep.code, rep.text@) == Severity::Success {
        o is None
    } else {
        o matches Some(f) && outcome_of_reply(rep, f)
    }
}

/// How one final outcome relates to the recipient phase and the body reply:
/// a recipient the peer rejected keeps its own failure; every recipient
/// still pending when the body was sent shares the body reply's
/// classification — success delivers it, a rejection fails the whole
/// still-pending batch identically.
pub open spec fn body_item_ok(pending: Option<Outcome>, body: Reply, o: Outcome) -> bool {
    match pending {
        Some(f) => o == f,
        None => outcome_of_reply(body, o),
    }
}

/// Completes the transaction after the body reply: fills every still-pending
/// recipient with the body reply's classification.
pub fn body_phase(pending: Vec<Option<Outcome>>, body: &Reply) -> (out: Vec<Outcome>)
    ensures
        out@.len() == pending@.len(),
        forall|i: int|
            0 <= i < pending@.len() ==> body_item_ok(pending@[i], *body, #[trigger] out@[i]),
{
    let mut src = pending;
    let mut out: Vec<Outcome> = Vec::new();
    let ghost pending0 = src@;
    while src.len() > 0
        invariant
            out@.len() + src@.len() == pending0.len(),
            src@ == pending0.subrange(out@.len() as int, pending0.len() as int),
            forall|i: int|
                0 <= i < out@.len() ==> body_item_ok(pending0[i], *body, #[trigger] out@[i]),
        decreases src.len(),
    {
        let ghost n = out@.len() as int;
        let item = src.remove(0);
        proof {
            assert(item == pending0[n]);
            assert(src@ =~= pending0.subrange(n + 1, pending0.len() as int));
        }
        match item {
            Some(o) => out.push(o),
            None => out.push(classify_reply(body)),
        }
    }
    out
}

/// One outcome per recipient, all carrying the same classification: used
/// when a failure hits the whole batch at once (the sender was rejected, the
/// route is exhausted, the connection failed).
pub fn broadcast_outcomes(rep: &Reply, n: usize) -> (out: Vec<Outcome>)
    ensures
        out@.len() == n,
        forall|i: int| 0 <= i < n ==> outcome_of_reply(*rep, #[trigger] out@[i]),
{
    let mut out: Vec<Outcome> = Vec::new();
    while out.len() < n
        invariant
            out@.len() <= n,
            forall|i: int| 0 <= i < out@.len() ==> outcome_of_reply(*rep, #[trigger] out@[i]),
        decreases n - out@.len(),
    {
        out.push(classify_reply(rep));
    }
    out
}

/// The extension parameters announced with the sender command, in announce
/// order: the body size when size negotiation applies, then the envelope
/// identifier and content preference when the peer honors DSN parameters,
/// then the security and UTF-8 markers.
pub open spec fn mail_params_spec(p: Params, caps: Capabilities, body_len: u64) -> Seq<u8> {
    (if p.flags.want_size && caps.size_limit is Some {
        " SIZE=".spec_bytes() + dec_str(body_len as int)
    } else {
        Seq::<u8>::empty()
    }) + (if caps.dsn && p.env_id is Some {
        " ENVID=".spec_bytes() + p.env_id->0@
    } else {
        Seq::<u8>::empty()
    }) + (if caps.dsn && p.flags.request_dsn {
        if p.headers_only {
            " RET=HDRS".spec_bytes()
        } else {
            " RET=FULL".spec_bytes()
        }
    } else {
        Seq::<u8>::empty()
    }) + (if p.flags.require_tls && caps.tls {
        " REQUIRETLS".spec_bytes()
    } else {
        Seq::<u8>::empty()
    }) + (if p.flags.utf8 && caps.utf8 {
        " SMTPUTF8".spec_bytes()
    } else {
        Seq::<u8>::empty()
    })
}

/// Renders the sender command's extension parameters.
pub fn mail_params(p: &Params, caps: &Capabilities, body_len: u64) -> (r: Vec<u8>)
    ensures
        r@ == mail_params_spec(*p, *caps, body_len),
{
    let mut r: Vec<u8> = Vec::new();
    if p.flags.want_size && caps.size_limit.is_some() {
        append_str(&mut r, " SIZE=");
        append_dec(&mut r, body_len);
    }
    if caps.dsn {
        match &p.env_id {
            Some(id) => {
                append_str(&mut r, " ENVID=");
                append_vec(&mut r, id);
            },
            None => {},
        }
        if p.flags.request_dsn {
            if p.headers_only {
                append_str(&mut r, " RET=HDRS");
            } else {
                append_str(&mut r, " RET=FULL");
            }
        }
    }
    if p.flags.require_tls && caps.tls {
        append_str(&mut r, " REQUIRETLS");
    }
    if p.flags.utf8 && caps.utf8 {
        append_str(&mut r, " SMTPUTF8");
    }
    proof {
        assert(r@ =~= mail_params_spec(*p, *caps, body_len));
    }
    r
}

/// The notify-preference parameter announced with one recipient command,
/// present only when the peer honors DSN parameters: `NEVER` when all
/// notification is suppressed, else the comma-separated list of requested
/// events, or nothing when no preference was expressed.
pub open spec fn rcpt_params_spec(n: NotifyPref, caps: Capabilities) -> Seq<u8> {
    if !caps.dsn {
        Seq::<u8>::empty()
    } else if n.never {
        " NOTIFY=NEVER".spec_bytes()
    } else if !n.success && !n.failure && !n.delay {
        Seq::<u8>::empty()
    } else {
        " NOTIFY=".spec_bytes() + (if n.success {
            "SUCCESS".spec_bytes()
        } else {
            Seq::<u8>::empty()
        }) + (if n.failure {
            (if n.success {
                ",".spec_bytes()
            } else {
                Seq::<u8>::empty()
            }) + "FAILURE".spec_bytes()
        } else {
            Seq::<u8>::empty()
        }) + (if n.delay {
            (if n.success || n.failure {
                ",".spec_bytes()
            } else {
                Seq::<u8>::empty()
            }) + "DELAY".spec_bytes()
        } else {
            Seq::<u8>::empty()
        })
    }
}

/// Renders the recipient command's notify-preference parameter.
pub fn rcpt_params(n: &NotifyPref, caps: &Capabilities) -> (r: Vec<u8>)
    ensures
        r@ == rcpt_params_spec(*n, *caps),
{
    let mut r: Vec<u8> = Vec::new();
    if !caps.dsn {
        return r;
    }
    if n.never {
        append_str(&mut r, " NOTIFY=NEVER");
        proof {
            assert(r@ =~= rcpt_params_spec(*n, *caps));
        }
        return r;
    }
    if !n.success && !n.failure && !n.delay {
        return r;
    }
    append_str(&mut r, " NOTIFY=");
    if n.success {
        append_str(&mut r, "SUCCESS");
    }
    if n.failure {
        if n.success {
            append_str(&mut r, ",");
        }
        append_str(&mut r, "FAILURE");
    }
    if n.delay {
        if n.success || n.failure {
            append_str(&mut r, ",");
        }
        append_str(&mut r, "DELAY");
    }
    proof {
        assert(r@ =~= rcpt_params_spec(*n, *caps));
    }
    r
}

} // verus!
