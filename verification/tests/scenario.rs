//! End-to-end delivery scenarios driven through the queue manager, with the
//! peer's replies supplied as plain values.

use mta_delivery::dsn::maybe_generate;
use mta_delivery::message::{Message, MsgFlags, NotifyPref, Params, Recipient, Status};
use mta_delivery::queue::{apply_outcomes, begin_batch, can_retire, next_batch, DeliveryQueue};
use mta_delivery::retry::RetryPolicy;
use mta_delivery::session::{
    body_phase, mail_params, may_transmit, pre_check, rcpt_phase, reply_accepted, Capabilities,
    Reply, Verdict,
};
use mta_delivery::status::StatusCode;

fn contains(haystack: &[u8], needle: &[u8]) -> bool {
    haystack.windows(needle.len()).any(|w| w == needle)
}

#[test]
fn one_recipient_rejected_one_delivered_one_dsn() {
    // message to two recipients at the same domain; the peer accepts the
    // sender and the first recipient, rejects the second with a permanent
    // code, and accepts the body
    let pol = RetryPolicy { first_interval: 10, max_interval: 3600 };
    let expiry = 1_000_000;
    let bill = Recipient::new(
        b"bill@foobar.org".to_vec(),
        b"foobar.org".to_vec(),
        NotifyPref::on_failure(),
        0,
        expiry,
    );
    let jane = Recipient::new(
        b"jane@foobar.org".to_vec(),
        b"foobar.org".to_vec(),
        NotifyPref::on_failure(),
        0,
        expiry,
    );
    let msg = Message {
        sender: b"john@test.org".to_vec(),
        params: Params {
            flags: MsgFlags {
                request_dsn: false,
                want_size: false,
                require_tls: false,
                utf8: false,
            },
            env_id: None,
            headers_only: false,
        },
        body: b"Subject: hi\r\n\r\nhello".to_vec(),
        recipients: vec![bill, jane],
        is_dsn: false,
    };
    let mut queue = DeliveryQueue::new();
    queue.enqueue(msg);

    let now = 5;
    let msg = &mut queue.messages[0];
    // both recipients are due and share the domain: one batch
    let idx = next_batch(msg, now).unwrap();
    assert_eq!(idx, vec![0, 1]);
    begin_batch(msg, &idx, now);
    assert!(matches!(msg.recipients[0].status, Status::InProgress));
    assert!(matches!(msg.recipients[1].status, Status::InProgress));

    // pre-checks pass for both
    let caps = Capabilities { size_limit: Some(1500), dsn: true, utf8: true, tls: true };
    for r in &msg.recipients {
        assert_eq!(
            pre_check(&msg.params.flags, &caps, msg.body.len() as u64, &r.address),
            Verdict::Proceed
        );
    }

    // the peer's replies, stage by stage
    let sender_reply = Reply { code: 250, text: b"2.1.0 sender ok".to_vec() };
    assert!(reply_accepted(&sender_reply));
    let rcpt_replies = vec![
        Reply { code: 250, text: b"2.1.5 recipient ok".to_vec() },
        Reply { code: 550, text: b"5.1.1 no such user".to_vec() },
    ];
    let pending = rcpt_phase(&rcpt_replies);
    let body_reply = Reply { code: 250, text: b"2.0.0 message queued".to_vec() };
    let outcomes = body_phase(pending, &body_reply);

    let evs = apply_outcomes(msg, &idx, &outcomes, now, &pol);
    assert!(matches!(msg.recipients[0].status, Status::Delivered));
    assert!(matches!(msg.recipients[1].status, Status::Bounced));
    // the bounced recipient carries the peer's own status code
    assert_eq!(msg.recipients[1].last_status, StatusCode { class: 5, subject: 1, detail: 1 });

    // exactly one DSN, reporting only the rejected recipient
    let dsn = maybe_generate(msg, &evs, now, expiry).unwrap();
    assert!(contains(&dsn.body, b"Final-Recipient: rfc822;jane@foobar.org"));
    assert!(!contains(&dsn.body, b"bill@foobar.org"));
    assert!(contains(&dsn.body, b"Action: failed"));
    assert!(contains(&dsn.body, b"Status: 5.1.1"));

    // the message retires only now that both recipients are terminal, and
    // the DSN enters the queue as a new message first
    assert!(can_retire(&queue.messages[0]));
    queue.finish_message(0, Some(dsn));
    assert_eq!(queue.messages.len(), 1);
    assert!(queue.messages[0].is_dsn);
}

#[test]
fn extension_flags_carried_through_and_headers_only_dsn() {
    // message with envelope identifier, headers-only return, mandatory
    // transport security and the UTF-8 flag, delivered to a peer that
    // supports all of them
    let pol = RetryPolicy { first_interval: 10, max_interval: 3600 };
    let expiry = 1_000_000;
    let bill = Recipient::new(
        b"bill@foobar.org".to_vec(),
        b"foobar.org".to_vec(),
        NotifyPref { success: true, failure: true, delay: false, never: false },
        0,
        expiry,
    );
    let mut msg = Message {
        sender: b"john@test.org".to_vec(),
        params: Params {
            flags: MsgFlags {
                request_dsn: true,
                want_size: false,
                require_tls: true,
                utf8: true,
            },
            env_id: Some(b"abc123".to_vec()),
            headers_only: true,
        },
        body: b"Subject: hi\r\n\r\nbody text".to_vec(),
        recipients: vec![bill],
        is_dsn: false,
    };
    let caps = Capabilities { size_limit: Some(1500), dsn: true, utf8: true, tls: true };

    // the sender command announces every requested extension
    let announced = mail_params(&msg.params, &caps, msg.body.len() as u64);
    assert_eq!(announced, b" ENVID=abc123 RET=HDRS REQUIRETLS SMTPUTF8".to_vec());

    let now = 5;
    let idx = next_batch(&msg, now).unwrap();
    begin_batch(&mut msg, &idx, now);
    assert_eq!(
        pre_check(&msg.params.flags, &caps, msg.body.len() as u64, &msg.recipients[0].address),
        Verdict::Proceed
    );
    let pending = rcpt_phase(&vec![Reply { code: 250, text: b"2.1.5 ok".to_vec() }]);
    let outcomes = body_phase(pending, &Reply { code: 250, text: b"2.0.0 queued".to_vec() });
    let evs = apply_outcomes(&mut msg, &idx, &outcomes, now, &pol);
    assert!(matches!(msg.recipients[0].status, Status::Delivered));

    // the resulting DSN carries the envelope identifier and only the
    // header block of the original content
    let dsn = maybe_generate(&msg, &evs, now, expiry).unwrap();
    assert!(contains(&dsn.body, b"Original-Envelope-Id: abc123"));
    assert!(contains(&dsn.body, b"Action: delivered"));
    assert!(contains(&dsn.body, b"Subject: hi\r\n"));
    assert!(!contains(&dsn.body, b"body text"));
}

#[test]
fn security_failure_blocks_the_batch_before_any_transmission() {
    // mandatory transport security against a peer that cannot provide it:
    // every recipient fails permanently with the security-policy status and
    // the transaction never starts
    let pol = RetryPolicy { first_interval: 10, max_interval: 3600 };
    let expiry = 1_000_000;
    let mk = |addr: &[u8]| {
        Recipient::new(addr.to_vec(), b"foobar.org".to_vec(), NotifyPref::on_failure(), 0, expiry)
    };
    let mut msg = Message {
        sender: b"john@test.org".to_vec(),
        params: Params {
            flags: MsgFlags {
                request_dsn: false,
                want_size: false,
                require_tls: true,
                utf8: false,
            },
            env_id: None,
            headers_only: false,
        },
        body: b"Subject: x\r\n\r\nsecret".to_vec(),
        recipients: vec![mk(b"a@foobar.org"), mk(b"b@foobar.org")],
        is_dsn: false,
    };
    let caps = Capabilities { size_limit: None, dsn: false, utf8: false, tls: false };
    let now = 0;
    let idx = next_batch(&msg, now).unwrap();
    begin_batch(&mut msg, &idx, now);
    let mut verdicts = Vec::new();
    let mut outcomes = Vec::new();
    for r in &msg.recipients {
        let v = pre_check(&msg.params.flags, &caps, msg.body.len() as u64, &r.address);
        assert_eq!(v, Verdict::FailSecurity);
        outcomes.push(mta_delivery::session::verdict_outcome(v).unwrap());
        verdicts.push(v);
    }
    // no recipient proceeds: nothing of the body goes out
    assert!(!may_transmit(&verdicts));
    apply_outcomes(&mut msg, &idx, &outcomes, now, &pol);
    for r in &msg.recipients {
        assert!(matches!(r.status, Status::Bounced));
        assert_eq!(r.last_status, StatusCode { class: 5, subject: 7, detail: 4 });
    }
}
