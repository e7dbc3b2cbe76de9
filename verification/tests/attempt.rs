use mta_delivery::message::{MsgFlags, NotifyPref, Params};
use mta_delivery::session::{
    body_phase, broadcast_outcomes, connect_outcome, mail_params, may_transmit, pre_check,
    rcpt_params, rcpt_phase, verdict_outcome, Capabilities, ConnectError, Reply, Verdict,
};
use mta_delivery::status::{Outcome, StatusCode};

fn caps_all() -> Capabilities {
    Capabilities { size_limit: Some(1500), dsn: true, utf8: true, tls: true }
}

fn flags_plain() -> MsgFlags {
    MsgFlags { request_dsn: false, want_size: false, require_tls: false, utf8: false }
}

#[test]
fn security_check_blocks_everyone_before_anything_else() {
    // peer without transport security, message that requires it: the
    // verdict is the security failure for every recipient, even one that
    // would also be over the size limit
    let caps = Capabilities { size_limit: Some(10), dsn: true, utf8: false, tls: false };
    let flags = MsgFlags { request_dsn: false, want_size: false, require_tls: true, utf8: false };
    let v1 = pre_check(&flags, &caps, 5, &b"a@x.org".to_vec());
    let v2 = pre_check(&flags, &caps, 5000, &"b\u{00e9}@x.org".as_bytes().to_vec());
    assert_eq!(v1, Verdict::FailSecurity);
    assert_eq!(v2, Verdict::FailSecurity);
    // no verdict proceeds, so the body is never transmitted
    assert!(!may_transmit(&vec![v1, v2]));
    // and the outcome it stands for is a permanent security-policy failure
    match verdict_outcome(v1) {
        Some(Outcome::Permanent { status, .. }) => {
            assert_eq!(status, StatusCode { class: 5, subject: 7, detail: 4 });
        }
        other => panic!("expected a permanent security failure, got {:?}", other),
    }
}

#[test]
fn utf8_recipient_dropped_when_peer_lacks_utf8() {
    let caps = Capabilities { size_limit: None, dsn: true, utf8: false, tls: true };
    let flags = flags_plain();
    let ascii = pre_check(&flags, &caps, 100, &b"john@test.org".to_vec());
    let intl = pre_check(&flags, &caps, 100, &"jos\u{00e9}@test.org".as_bytes().to_vec());
    assert_eq!(ascii, Verdict::Proceed);
    assert_eq!(intl, Verdict::FailCapability);
    match verdict_outcome(intl) {
        Some(Outcome::Permanent { status, .. }) => {
            assert_eq!(status, StatusCode { class: 5, subject: 6, detail: 7 });
        }
        other => panic!("expected a permanent capability mismatch, got {:?}", other),
    }
}

#[test]
fn oversize_body_fails_all_proceeding_without_transmission() {
    let caps = caps_all();
    let flags = flags_plain();
    let v1 = pre_check(&flags, &caps, 2000, &b"a@x.org".to_vec());
    let v2 = pre_check(&flags, &caps, 2000, &b"b@x.org".to_vec());
    assert_eq!(v1, Verdict::FailSize);
    assert_eq!(v2, Verdict::FailSize);
    assert!(!may_transmit(&vec![v1, v2]));
    match verdict_outcome(v1) {
        Some(Outcome::Permanent { status, .. }) => {
            assert_eq!(status, StatusCode { class: 5, subject: 3, detail: 4 });
        }
        other => panic!("expected a permanent over-limit failure, got {:?}", other),
    }
    // at the limit exactly, delivery proceeds
    assert_eq!(pre_check(&flags, &caps, 1500, &b"a@x.org".to_vec()), Verdict::Proceed);
}

#[test]
fn sender_rejection_broadcasts_to_the_whole_batch() {
    let rep = Reply { code: 552, text: b"5.3.4 message too big".to_vec() };
    let outs = broadcast_outcomes(&rep, 3);
    assert_eq!(outs.len(), 3);
    for o in &outs {
        match o {
            Outcome::Permanent { status, diag } => {
                assert_eq!(*status, StatusCode { class: 5, subject: 3, detail: 4 });
                assert_eq!(diag, &b"5.3.4 message too big".to_vec());
            }
            other => panic!("expected a permanent failure, got {:?}", other),
        }
    }
}

#[test]
fn recipient_rejection_touches_only_that_recipient() {
    let replies = vec![
        Reply { code: 250, text: b"2.1.5 ok".to_vec() },
        Reply { code: 550, text: b"5.1.1 no such user".to_vec() },
        Reply { code: 250, text: b"ok".to_vec() },
    ];
    let pending = rcpt_phase(&replies);
    assert!(pending[0].is_none());
    assert!(matches!(pending[1], Some(Outcome::Permanent { .. })));
    assert!(pending[2].is_none());
    // body accepted: the accepted recipients succeed, the rejected one
    // keeps its own failure
    let body = Reply { code: 250, text: b"2.0.0 queued".to_vec() };
    let outs = body_phase(pending, &body);
    assert!(matches!(outs[0], Outcome::Success { .. }));
    match &outs[1] {
        Outcome::Permanent { status, .. } => {
            assert_eq!(*status, StatusCode { class: 5, subject: 1, detail: 1 })
        }
        other => panic!("expected the recipient's own failure, got {:?}", other),
    }
    assert!(matches!(outs[2], Outcome::Success { .. }));
}

#[test]
fn body_rejection_fails_every_pending_recipient_identically() {
    let replies = vec![
        Reply { code: 250, text: b"ok".to_vec() },
        Reply { code: 250, text: b"ok".to_vec() },
    ];
    let pending = rcpt_phase(&replies);
    let body = Reply { code: 452, text: b"4.3.1 out of disk".to_vec() };
    let outs = body_phase(pending, &body);
    for o in &outs {
        match o {
            Outcome::Temporary { status, .. } => {
                assert_eq!(*status, StatusCode { class: 4, subject: 3, detail: 1 })
            }
            other => panic!("expected the body failure for both, got {:?}", other),
        }
    }
}

#[test]
fn mail_params_announce_the_message_flags() {
    let p = Params {
        flags: MsgFlags { request_dsn: true, want_size: false, require_tls: true, utf8: true },
        env_id: Some(b"abc123".to_vec()),
        headers_only: true,
    };
    let r = mail_params(&p, &caps_all(), 1000);
    assert_eq!(r, b" ENVID=abc123 RET=HDRS REQUIRETLS SMTPUTF8".to_vec());
}

#[test]
fn mail_params_follow_the_peer_capabilities() {
    let p = Params {
        flags: MsgFlags { request_dsn: true, want_size: true, require_tls: false, utf8: true },
        env_id: Some(b"abc123".to_vec()),
        headers_only: false,
    };
    // a peer without the DSN extension sees no ENVID or RET
    let caps = Capabilities { size_limit: Some(5000), dsn: false, utf8: true, tls: true };
    let r = mail_params(&p, &caps, 1234);
    assert_eq!(r, b" SIZE=1234 SMTPUTF8".to_vec());
}

#[test]
fn rcpt_params_render_the_notify_preference() {
    let caps = caps_all();
    let both = NotifyPref { success: true, failure: true, delay: false, never: false };
    assert_eq!(rcpt_params(&both, &caps), b" NOTIFY=SUCCESS,FAILURE".to_vec());
    let never = NotifyPref::suppressed();
    assert_eq!(rcpt_params(&never, &caps), b" NOTIFY=NEVER".to_vec());
    let all = NotifyPref { success: true, failure: true, delay: true, never: false };
    assert_eq!(rcpt_params(&all, &caps), b" NOTIFY=SUCCESS,FAILURE,DELAY".to_vec());
    let delay_only = NotifyPref { success: false, failure: false, delay: true, never: false };
    assert_eq!(rcpt_params(&delay_only, &caps), b" NOTIFY=DELAY".to_vec());
    let unset = NotifyPref { success: false, failure: false, delay: false, never: false };
    assert_eq!(rcpt_params(&unset, &caps), b"".to_vec());
    // without the DSN extension nothing is announced
    let caps_nodsn = Capabilities { size_limit: None, dsn: false, utf8: true, tls: true };
    assert_eq!(rcpt_params(&both, &caps_nodsn), b"".to_vec());
}

#[test]
fn connection_failures_are_transient() {
    for e in [ConnectError::Refused, ConnectError::Timeout, ConnectError::Reset] {
        match connect_outcome(e) {
            Outcome::Temporary { status, .. } => assert_eq!(status.class, 4),
            other => panic!("expected a temporary failure, got {:?}", other),
        }
    }
}
