use mta_delivery::message::{DsnEvent, NotifyPref, Recipient, Status};
use mta_delivery::retry::{backoff, record_outcome, RetryPolicy};
use mta_delivery::status::{Outcome, StatusCode};

fn fresh(due: u64, expiry: u64) -> Recipient {
    Recipient::new(
        b"bill@foobar.org".to_vec(),
        b"foobar.org".to_vec(),
        NotifyPref::on_failure(),
        due,
        expiry,
    )
}

fn temp_fail() -> Outcome {
    Outcome::Temporary {
        status: StatusCode { class: 4, subject: 0, detail: 0 },
        diag: b"greylisted".to_vec(),
    }
}

#[test]
fn backoff_doubles_and_caps() {
    let pol = RetryPolicy { first_interval: 2, max_interval: 100 };
    assert_eq!(backoff(&pol, 0), 2);
    assert_eq!(backoff(&pol, 1), 4);
    assert_eq!(backoff(&pol, 5), 64);
    assert_eq!(backoff(&pol, 6), 100);
    assert_eq!(backoff(&pol, 60), 100);
}

#[test]
fn delivery_walks_the_lifecycle() {
    let pol = RetryPolicy { first_interval: 10, max_interval: 3600 };
    let mut r = fresh(0, 1_000_000);
    assert!(matches!(r.status, Status::Queued));
    r.begin_attempt(5);
    assert!(matches!(r.status, Status::InProgress));
    let ev = record_outcome(
        &mut r,
        &Outcome::Success {
            status: StatusCode { class: 2, subject: 0, detail: 0 },
            diag: b"delivered".to_vec(),
        },
        5,
        &pol,
    );
    assert!(matches!(r.status, Status::Delivered));
    assert_eq!(ev, Some(DsnEvent::Delivered));
    assert_eq!(r.attempts, 1);
}

#[test]
fn temporary_failure_schedules_retry() {
    let pol = RetryPolicy { first_interval: 10, max_interval: 3600 };
    let mut r = fresh(0, 1_000_000);
    r.begin_attempt(100);
    let ev = record_outcome(&mut r, &temp_fail(), 100, &pol);
    assert!(matches!(r.status, Status::Pending));
    assert_eq!(ev, Some(DsnEvent::Delayed));
    assert_eq!(r.next_retry, 110);
    assert_eq!(r.attempts, 1);
    assert_eq!(r.last_diag, b"greylisted".to_vec());
    // the next attempt backs off further; retry times never move backwards
    r.begin_attempt(110);
    record_outcome(&mut r, &temp_fail(), 110, &pol);
    assert!(matches!(r.status, Status::Pending));
    assert_eq!(r.next_retry, 130);
    assert_eq!(r.attempts, 2);
}

#[test]
fn retry_past_expiry_bounces_with_expired_status() {
    let pol = RetryPolicy { first_interval: 100, max_interval: 3600 };
    // expiry so close that now + backoff overshoots it
    let mut r = fresh(0, 950);
    r.begin_attempt(900);
    let ev = record_outcome(&mut r, &temp_fail(), 900, &pol);
    assert!(matches!(r.status, Status::Bounced));
    assert_eq!(ev, Some(DsnEvent::Failed));
    assert_eq!(r.last_status, StatusCode { class: 4, subject: 4, detail: 7 });
    assert_eq!(r.last_diag, b"delivery time expired".to_vec());
}

#[test]
fn retry_exactly_at_expiry_stays_pending() {
    let pol = RetryPolicy { first_interval: 50, max_interval: 3600 };
    let mut r = fresh(0, 950);
    r.begin_attempt(900);
    record_outcome(&mut r, &temp_fail(), 900, &pol);
    assert!(matches!(r.status, Status::Pending));
    assert_eq!(r.next_retry, 950);
}

#[test]
fn permanent_failure_bounces_at_once() {
    let pol = RetryPolicy { first_interval: 10, max_interval: 3600 };
    let mut r = fresh(0, 1_000_000);
    r.begin_attempt(0);
    let ev = record_outcome(
        &mut r,
        &Outcome::Permanent {
            status: StatusCode { class: 5, subject: 1, detail: 1 },
            diag: b"no such user".to_vec(),
        },
        0,
        &pol,
    );
    assert!(matches!(r.status, Status::Bounced));
    assert_eq!(ev, Some(DsnEvent::Failed));
    assert_eq!(r.last_status, StatusCode { class: 5, subject: 1, detail: 1 });
}
