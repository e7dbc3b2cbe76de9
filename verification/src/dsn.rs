//! Delivery-status-notification generation: which recipients' events warrant
//! a report entry, the report's byte-level rendering, and the synthesis of
//! the DSN as a new outbound message with a synthetic (empty) sender.
//!
//! A DSN message is tagged as such at creation and never generates a further
//! DSN, which breaks the notification recursion.

use crate::bytes::{append_dec, append_str, append_vec, dec_str};
use crate::message::{DsnEvent, Message, MsgFlags, NotifyPref, Params, Recipient, Status};
use crate::status::StatusCode;
use vstd::prelude::*;
use vstd::string::StringSliceAdditionalSpecFns;

verus! {

/// Whether a recipient's notify preference asks for a report of this event:
/// a successful delivery is reported only when "notify on success" is set, a
/// final bounce is reported unless "never" is set, and entry into the
/// pending state is reported only when "notify on delay" is set.
pub open spec fn wants_event(p: NotifyPref, e: DsnEvent) -> bool {
    match e {
        DsnEvent::Delivered => p.success,
        DsnEvent::Failed => !p.never,
        DsnEvent::Delayed => p.delay,
    }
}

/// Decides `wants_event`.
pub fn event_wanted(p: &NotifyPref, e: DsnEvent) -> (r: bool)
    ensures
        r == wants_event(*p, e),
{
    match e {
        DsnEvent::Delivered => p.success,
        DsnEvent::Failed => !p.never,
        DsnEvent::Delayed => p.delay,
    }
}

/// One per-recipient block of a DSN report.
pub struct DsnEntry {
    pub address: Vec<u8>,
    pub action: DsnEvent,
    pub status: StatusCode,
    pub diagnostic: Vec<u8>,
}

/// The mathematical model of a report entry.
pub struct EntryModel {
    pub address: Seq<u8>,
    pub action: DsnEvent,
    pub status: StatusCode,
    pub diagnostic: Seq<u8>,
}

impl View for DsnEntry {
    type V = EntryModel;

    open spec fn view(&self) -> EntryModel {
        EntryModel {
            address: self.address@,
            action: self.action,
            status: self.status,
            diagnostic: self.diagnostic@,
        }
    }
}

/// The entry a recipient contributes for an event: its address, the action
/// keyword, and the status and diagnostic of its last attempt.
pub open spec fn entry_model(r: Recipient, e: DsnEvent) -> EntryModel {
    EntryModel { address: r.address@, action: e, status: r.last_status, diagnostic: r.last_diag@ }
}

/// Whether recipient `i` contributes an entry: an event occurred for it and
/// its preference asks for a report of that event.
pub open spec fn report_cond(rs: Seq<Recipient>, evs: Seq<Option<DsnEvent>>, i: int) -> bool {
    evs[i] matches Some(e) && wants_event(rs[i].notify, e)
}

/// The report entries contributed by recipients `lo .. hi`, in recipient
/// order.
pub open spec fn entries_range(
    rs: Seq<Recipient>,
    evs: Seq<Option<DsnEvent>>,
    lo: int,
    hi: int,
) -> Seq<EntryModel>
    decreases hi - lo,
{
    if hi <= lo {
        Seq::empty()
    } else {
        let pre = entries_range(rs, evs, lo, hi - 1);
        if report_cond(rs, evs, hi - 1) {
            pre.push(entry_model(rs[hi - 1], evs[hi - 1]->0))
        } else {
            pre
        }
    }
}

/// All report entries of a message, given the event (if any) that just
/// occurred for each recipient.
pub open spec fn entries_spec(rs: Seq<Recipient>, evs: Seq<Option<DsnEvent>>) -> Seq<EntryModel> {
    entries_range(rs, evs, 0, rs.len() as int)
}

/// The entries of a range split at any midpoint.
pub proof fn lemma_entries_split(
    rs: Seq<Recipient>,
    evs: Seq<Option<DsnEvent>>,
    lo: int,
    mid: int,
    hi: int,
)
    requires
        lo <= mid <= hi,
    ensures
        entries_range(rs, evs, lo, hi) == entries_range(rs, evs, lo, mid) + entries_range(
            rs,
            evs,
            mid,
            hi,
        ),
    decreases hi - mid,
{
    if hi == mid {
        assert(entries_range(rs, evs, lo, hi) =~= entries_range(rs, evs, lo, mid) + entries_range(
            rs,
            evs,
            mid,
            hi,
        ));
    } else {
        lemma_entries_split(rs, evs, lo, mid, hi - 1);
        assert(entries_range(rs, evs, lo, hi) =~= entries_range(rs, evs, lo, mid) + entries_range(
            rs,
            evs,
            mid,
            hi,
        ));
    }
}

/// Law (notify never, suppression): a recipient whose preference is `never`
/// contributes nothing to any DSN, whatever event occurred for it — the
/// report entries are the same as if no event had occurred for it at all.
pub proof fn lemma_never_suppresses(
    rs: Seq<Recipient>,
    evs: Seq<Option<DsnEvent>>,
    i: int,
    lo: int,
    hi: int,
)
    requires
        0 <= i < rs.len(),
        evs.len() == rs.len(),
        0 <= lo,
        hi <= rs.len(),
        rs[i].notify.wf(),
        rs[i].notify.never,
    ensures
        entries_range(rs, evs, lo, hi) == entries_range(rs, evs.update(i, None), lo, hi),
    decreases hi - lo,
{
    if hi > lo {
        lemma_never_suppresses(rs, evs, i, lo, hi - 1);
        if hi - 1 == i {
            assert(!report_cond(rs, evs, i)) by {
                if evs[i] is Some {
                    assert(!wants_event(rs[i].notify, evs[i]->0));
                }
            }
        }
    }
}

/// Law (no wanted event, no DSN): when no recipient both has an event and
/// wants it reported, the report is empty, so no DSN message is generated
/// at all.
pub proof fn lemma_no_entries(rs: Seq<Recipient>, evs: Seq<Option<DsnEvent>>, lo: int, hi: int)
    requires
        forall|i: int| lo <= i < hi ==> !report_cond(rs, evs, i),
    ensures
        entries_range(rs, evs, lo, hi).len() == 0,
    decreases hi - lo,
{
    if hi > lo {
        lemma_no_entries(rs, evs, lo, hi - 1);
    }
}

/// Law (notify on success): a recipient with "notify on success" set, for
/// which a successful delivery just occurred, contributes exactly one report
/// entry, with action `delivered` and its address — the whole report splits
/// into the entries before it, that single entry, and the entries after it.
pub proof fn lemma_success_exactly_one(rs: Seq<Recipient>, evs: Seq<Option<DsnEvent>>, i: int)
    requires
        0 <= i < rs.len(),
        evs.len() == rs.len(),
        evs[i] == Some(DsnEvent::Delivered),
        rs[i].notify.success,
    ensures
        entries_spec(rs, evs) == entries_range(rs, evs, 0, i) + seq![
            entry_model(rs[i], DsnEvent::Delivered),
        ] + entries_range(rs, evs, i + 1, rs.len() as int),
        entry_model(rs[i], DsnEvent::Delivered).action == DsnEvent::Delivered,
        entry_model(rs[i], DsnEvent::Delivered).address == rs[i].address@,
{
    lemma_entries_split(rs, evs, 0, i, rs.len() as int);
    lemma_entries_split(rs, evs, i, i + 1, rs.len() as int);
    assert(entries_range(rs, evs, i, i) =~= Seq::<EntryModel>::empty());
    assert(report_cond(rs, evs, i));
    assert(entries_range(rs, evs, i, i + 1) =~= seq![entry_model(rs[i], DsnEvent::Delivered)]);
}

/// Collects the report entries of a message in recipient order.
pub fn build_entries(rs: &Vec<Recipient>, evs: &Vec<Option<DsnEvent>>) -> (out: Vec<DsnEntry>)
    requires
        evs@.len() == rs@.len(),
    ensures
        out@.map_values(|e: DsnEntry| e@) == entries_spec(rs@, evs@),
{
    let mut out: Vec<DsnEntry> = Vec::new();
    let mut k: usize = 0;
    proof {
        assert(out@.map_values(|e: DsnEntry| e@) =~= entries_range(rs@, evs@, 0, 0));
    }
    while k < rs.len()
        invariant
            k <= rs@.len(),
            evs@.len() == rs@.len(),
            out@.map_values(|e: DsnEntry| e@) == entries_range(rs@, evs@, 0, k as int),
        decreases rs@.len() - k,
    {
        match &evs[k] {
            Some(e) => {
                if event_wanted(&rs[k].notify, *e) {
                    let entry = DsnEntry {
                        address: crate::bytes::copy_bytes(&rs[k].address),
                        action: *e,
                        status: rs[k].last_status,
                        diagnostic: crate::bytes::copy_bytes(&rs[k].last_diag),
                    };
                    let ghost prev = out@;
                    out.push(entry);
                    proof {
                        assert(out@.map_values(|e: DsnEntry| e@) =~= prev.map_values(
                            |e: DsnEntry| e@,
                        ).push(entry_model(rs@[k as int], evs@[k as int]->0)));
                    }
                }
            },
            None => {},
        }
        k = k + 1;
    }
    out
}

pub open spec fn crlf() -> Seq<u8> {
    seq![13u8, 10u8]
}

fn append_crlf(out: &mut Vec<u8>)
    ensures
        final(out)@ == old(out)@ + crlf(),
{
    out.push(13);
    out.push(10);
    proof {
        assert(final(out)@ =~= old(out)@ + crlf());
    }
}

/// The action keyword of a report entry.
pub open spec fn action_keyword(e: DsnEvent) -> Seq<u8> {
    match e {
        DsnEvent::Delivered => "delivered".spec_bytes(),
        DsnEvent::Failed => "failed".spec_bytes(),
        DsnEvent::Delayed => "delayed".spec_bytes(),
    }
}

/// The rendered status code `class.subject.detail`.
pub open spec fn status_bytes(s: StatusCode) -> Seq<u8> {
    dec_str(s.class as int) + ".".spec_bytes() + dec_str(s.subject as int) + ".".spec_bytes()
        + dec_str(s.detail as int)
}

/// One rendered per-recipient report block.
pub open spec fn entry_bytes(e: EntryModel) -> Seq<u8> {
    "Final-Recipient: rfc822;".spec_bytes() + e.address + crlf() + "Action: ".spec_bytes()
        + action_keyword(e.action) + crlf() + "Status: ".spec_bytes() + status_bytes(e.status)
        + crlf() + "Diagnostic-Code: smtp;".spec_bytes() + e.diagnostic + crlf() + crlf()
}

/// The rendered report blocks of entries `0 .. n`, in order.
pub open spec fn entries_bytes(es: Seq<EntryModel>, n: int) -> Seq<u8>
    decreases n,
{
    if n <= 0 {
        Seq::empty()
    } else {
        entries_bytes(es, n - 1) + entry_bytes(es[n - 1])
    }
}

fn append_status(out: &mut Vec<u8>, s: &StatusCode)
    ensures
        final(out)@ == old(out)@ + status_bytes(*s),
{
    append_dec(out, s.class as u64);
    append_str(out, ".");
    append_dec(out, s.subject as u64);
    append_str(out, ".");
    append_dec(out, s.detail as u64);
    proof {
        assert(final(out)@ =~= old(out)@ + status_bytes(*s));
    }
}

fn append_entry(out: &mut Vec<u8>, e: &DsnEntry)
    ensures
        final(out)@ == old(out)@ + entry_bytes(e@),
{
    append_str(out, "Final-Recipient: rfc822;");
    append_vec(out, &e.address);
    append_crlf(out);
    append_str(out, "Action: ");
    match e.action {
        DsnEvent::Delivered => append_str(out, "delivered"),
        DsnEvent::Failed => append_str(out, "failed"),
        DsnEvent::Delayed => append_str(out, "delayed"),
    }
    append_crlf(out);
    append_str(out, "Status: ");
    append_status(out, &e.status);
    append_crlf(out);
    append_str(out, "Diagnostic-Code: smtp;");
    append_vec(out, &e.diagnostic);
    append_crlf(out);
    append_crlf(out);
    proof {
        assert(final(out)@ =~= old(out)@ + entry_bytes(e@));
    }
}

/// Whether an empty line (end of the header block) stands at index `i`.
pub open spec fn sep_at(s: Seq<u8>, i: int) -> bool {
    &&& i + 4 <= s.len()
    &&& s[i] == 13
    &&& s[i + 1] == 10
    &&& s[i + 2] == 13
    &&& s[i + 3] == 10
}

/// The header block of a message body scanned from index `k`: everything up
/// to and including the first empty line, or the whole body when it has no
/// empty line.
pub open spec fn header_scan(s: Seq<u8>, k: int) -> Seq<u8>
    decreases s.len() - k,
{
    if k < 0 || k + 4 > s.len() {
        s
    } else if sep_at(s, k) {
        s.take(k + 4)
    } else {
        header_scan(s, k + 1)
    }
}

/// The header block of a message body.
pub open spec fn header_block_of(s: Seq<u8>) -> Seq<u8> {
    header_scan(s, 0)
}

/// Extracts the header block of a message body.
pub fn header_block(body: &Vec<u8>) -> (r: Vec<u8>)
    ensures
        r@ == header_block_of(body@),
{
    let n = body.len();
    if n >= 4 {
        let mut k: usize = 0;
        while k <= n - 4
            invariant
                4 <= n == body@.len(),
                k <= n - 3,
                header_block_of(body@) == header_scan(body@, k as int),
            decreases n - k,
        {
            if body[k] == 13 && body[k + 1] == 10 && body[k + 2] == 13 && body[k + 3] == 10 {
                let mut r: Vec<u8> = Vec::new();
                let mut t: usize = 0;
                while t < k + 4
                    invariant
                        t <= k + 4,
                        k <= usize::MAX - 4,
                        k + 4 <= body@.len(),
                        r@ == body@.take(t as int),
                    decreases k + 4 - t,
                {
                    r.push(body[t]);
                    proof {
                        assert(body@.take((t + 1) as int) == body@.take(t as int).push(
                            body@[t as int],
                        ));
                    }
                    t = t + 1;
                }
                return r;
            }
            k = k + 1;
        }
    }
    crate::bytes::copy_bytes(body)
}

/// The full rendered DSN body: the original envelope identifier when one was
/// given, then each recipient's report block, then the original content —
/// only its header block when the message asked for headers-only, else the
/// whole body.
pub open spec fn dsn_body_spec(
    env_id: Option<Vec<u8>>,
    headers_only: bool,
    body: Seq<u8>,
    es: Seq<EntryModel>,
) -> Seq<u8> {
    (match env_id {
        Some(id) => "Original-Envelope-Id: ".spec_bytes() + id@ + crlf(),
        None => Seq::<u8>::empty(),
    }) + entries_bytes(es, es.len() as int) + (if headers_only {
        header_block_of(body)
    } else {
        body
    })
}

/// Renders the DSN body.
fn render_dsn_body(msg: &Message, entries: &Vec<DsnEntry>) -> (r: Vec<u8>)
    ensures
        r@ == dsn_body_spec(
            msg.params.env_id,
            msg.params.headers_only,
            msg.body@,
            entries@.map_values(|e: DsnEntry| e@),
        ),
{
    let ghost es = entries@.map_values(|e: DsnEntry| e@);
    let mut r: Vec<u8> = Vec::new();
    match &msg.params.env_id {
        Some(id) => {
            append_str(&mut r, "Original-Envelope-Id: ");
            append_vec(&mut r, id);
            append_crlf(&mut r);
        },
        None => {},
    }
    let ghost head = r@;
    let mut k: usize = 0;
    while k < entries.len()
        invariant
            k <= entries@.len(),
            es == entries@.map_values(|e: DsnEntry| e@),
            r@ == head + entries_bytes(es, k as int),
        decreases entries@.len() - k,
    {
        append_entry(&mut r, &entries[k]);
        proof {
            assert(es[k as int] == entries@[k as int]@);
            assert(r@ =~= head + entries_bytes(es, (k + 1) as int));
        }
        k = k + 1;
    }
    if msg.params.headers_only {
        let hb = header_block(&msg.body);
        append_vec(&mut r, &hb);
    } else {
        append_vec(&mut r, &msg.body);
    }
    proof {
        assert(r@ =~= dsn_body_spec(
            msg.params.env_id,
            msg.params.headers_only,
            msg.body@,
            es,
        ));
    }
    r
}

/// The domain part of an address: the bytes after the last `@`, or the
/// whole address when it has none.
pub open spec fn domain_suffix(s: Seq<u8>, k: int) -> Seq<u8>
    decreases k,
{
    if k <= 0 {
        s
    } else if s[k - 1] == 0x40 {
        s.subrange(k, s.len() as int)
    } else {
        domain_suffix(s, k - 1)
    }
}

pub open spec fn domain_of(s: Seq<u8>) -> Seq<u8> {
    domain_suffix(s, s.len() as int)
}

/// Extracts the domain part of an address.
pub fn address_domain(addr: &Vec<u8>) -> (r: Vec<u8>)
    ensures
        r@ == domain_of(addr@),
{
    let mut k: usize = addr.len();
    while k > 0
        invariant
            k <= addr@.len(),
            domain_of(addr@) == domain_suffix(addr@, k as int),
        decreases k,
    {
        if addr[k - 1] == 0x40 {
            let mut r: Vec<u8> = Vec::new();
            let mut t: usize = k;
            while t < addr.len()
                invariant
                    k <= t <= addr@.len(),
                    r@ == addr@.subrange(k as int, t as int),
                decreases addr@.len() - t,
            {
                r.push(addr[t]);
                proof {
                    assert(addr@.subrange(k as int, (t + 1) as int) == addr@.subrange(
                        k as int,
                        t as int,
                    ).push(addr@[t as int]));
                }
                t = t + 1;
            }
            return r;
        }
        k = k - 1;
    }
    crate::bytes::copy_bytes(addr)
}

/// Generates the DSN for a message after a delivery cycle, given the event
/// (if any) that just occurred for each recipient.  No DSN is generated for
/// a message that is itself a DSN, nor when no recipient's preference asks
/// for a report.  The DSN is a new outbound message with a synthetic empty
/// sender, addressed back to the original sender, tagged so that it never
/// generates a further DSN; its body carries the original envelope
/// identifier, one report block per notified recipient, and the original
/// content (headers only, when so requested).
pub fn maybe_generate(msg: &Message, evs: &Vec<Option<DsnEvent>>, due: u64, expiry: u64) -> (r:
    Option<Message>)
    requires
        evs@.len() == msg.recipients@.len(),
    ensures
        msg.is_dsn ==> r is None,
        !msg.is_dsn ==> ((r is Some) <==> entries_spec(msg.recipients@, evs@).len() > 0),
        r matches Some(d) ==> {
            &&& d.is_dsn
            &&& d.wf()
            &&& d.sender@ == Seq::<u8>::empty()
            &&& d.recipients@.len() == 1
            &&& d.recipients@[0].address@ == msg.sender@
            &&& d.recipients@[0].domain@ == domain_of(msg.sender@)
            &&& d.recipients@[0].notify.never
            &&& d.recipients@[0].status == Status::Queued
            &&& d.recipients@[0].next_retry == due
            &&& d.recipients@[0].expiry == expiry
            &&& d.params.env_id is None
            &&& !d.params.flags.require_tls
            &&& !d.params.flags.utf8
            &&& d.body@ == dsn_body_spec(
                msg.params.env_id,
                msg.params.headers_only,
                msg.body@,
                entries_spec(msg.recipients@, evs@),
            )
        },
{
    if msg.is_dsn {
        return None;
    }
    let entries = build_entries(&msg.recipients, evs);
    if entries.len() == 0 {
        proof {
            assert(entries_spec(msg.recipients@, evs@).len() == entries@.map_values(
                |e: DsnEntry| e@,
            ).len());
        }
        return None;
    }
    let body = render_dsn_body(msg, &entries);
    let recipient = Recipient::new(
        crate::bytes::copy_bytes(&msg.sender),
        address_domain(&msg.sender),
        NotifyPref::suppressed(),
        due,
        expiry,
    );
    let mut recipients: Vec<Recipient> = Vec::new();
    recipients.push(recipient);
    let dsn = Message {
        sender: Vec::new(),
        params: Params {
            flags: MsgFlags {
                request_dsn: false,
                want_size: false,
                require_tls: false,
                utf8: false,
            },
            env_id: None,
            headers_only: false,
        },
        body,
        recipients,
        is_dsn: true,
    };
    proof {
        assert(entries_spec(msg.recipients@, evs@).len() == entries@.map_values(
            |e: DsnEntry| e@,
        ).len());
    }
    Some(dsn)
}

} // verus!
