use mta_delivery::route::{
    build_route, resolution_outcome, MxAnswer, MxRecord, ResolutionError, Route, RouteCache,
};
use mta_delivery::status::{Outcome, StatusCode};

fn mx(host: &[u8], pref: u16) -> MxRecord {
    MxRecord { host: host.to_vec(), preference: pref }
}

#[test]
fn hosts_ordered_by_ascending_preference() {
    let answer = MxAnswer::Records(vec![
        mx(b"mx3.example.org", 30),
        mx(b"mx1.example.org", 10),
        mx(b"mx2.example.org", 20),
    ]);
    let route = build_route(answer, &b"example.org".to_vec(), true).unwrap();
    let prefs: Vec<u16> = route.hosts.iter().map(|h| h.preference).collect();
    assert_eq!(prefs, vec![10, 20, 30]);
    assert_eq!(route.hosts[0].host, b"mx1.example.org".to_vec());
}

#[test]
fn equal_preferences_all_kept() {
    let answer = MxAnswer::Records(vec![
        mx(b"a.example.org", 10),
        mx(b"b.example.org", 10),
        mx(b"c.example.org", 5),
    ]);
    let route = build_route(answer, &b"example.org".to_vec(), true).unwrap();
    assert_eq!(route.hosts.len(), 3);
    assert_eq!(route.hosts[0].preference, 5);
    let mut tens: Vec<Vec<u8>> = route.hosts[1..].iter().map(|h| h.host.clone()).collect();
    tens.sort();
    assert_eq!(tens, vec![b"a.example.org".to_vec(), b"b.example.org".to_vec()]);
}

#[test]
fn implicit_host_when_no_mx_but_address() {
    let route = build_route(MxAnswer::NoRecords, &b"foobar.org".to_vec(), true).unwrap();
    assert_eq!(route.hosts.len(), 1);
    assert_eq!(route.hosts[0].host, b"foobar.org".to_vec());
    assert_eq!(route.hosts[0].preference, 0);
}

#[test]
fn no_mx_and_no_address_is_permanent() {
    let r = build_route(MxAnswer::NoRecords, &b"foobar.org".to_vec(), false);
    assert_eq!(r.err(), Some(ResolutionError::NoSuchDomain));
}

#[test]
fn missing_domain_is_permanent() {
    let r = build_route(MxAnswer::NotFound, &b"nowhere.invalid".to_vec(), true);
    assert_eq!(r.err(), Some(ResolutionError::NoSuchDomain));
}

#[test]
fn lookup_failure_is_transient() {
    let r = build_route(MxAnswer::ServerFailure, &b"foobar.org".to_vec(), true);
    assert_eq!(r.err(), Some(ResolutionError::Transient));
}

#[test]
fn cache_serves_fresh_entries_only() {
    let mut cache = RouteCache::new();
    let route = Route { hosts: vec![mx(b"mx.foobar.org", 10)] };
    cache.store(b"foobar.org".to_vec(), route, 100);
    // fresh before the deadline
    let hit = cache.find_fresh(&b"foobar.org".to_vec(), 99).unwrap();
    assert_eq!(cache.entries[hit].route.hosts[0].host, b"mx.foobar.org".to_vec());
    // stale at and after the deadline
    assert!(cache.find_fresh(&b"foobar.org".to_vec(), 100).is_none());
    // unknown domains never hit
    assert!(cache.find_fresh(&b"other.org".to_vec(), 0).is_none());
}

#[test]
fn cache_refresh_replaces_the_entry() {
    let mut cache = RouteCache::new();
    cache.store(b"foobar.org".to_vec(), Route { hosts: vec![mx(b"old.foobar.org", 10)] }, 50);
    cache.store(b"foobar.org".to_vec(), Route { hosts: vec![mx(b"new.foobar.org", 10)] }, 200);
    assert_eq!(cache.entries.len(), 1);
    let hit = cache.find_fresh(&b"foobar.org".to_vec(), 100).unwrap();
    assert_eq!(cache.entries[hit].route.hosts[0].host, b"new.foobar.org".to_vec());
}

#[test]
fn resolution_failures_classify_by_kind() {
    match resolution_outcome(ResolutionError::Transient) {
        Outcome::Temporary { status, .. } => {
            assert_eq!(status, StatusCode { class: 4, subject: 4, detail: 3 })
        }
        other => panic!("expected a temporary failure, got {:?}", other),
    }
    match resolution_outcome(ResolutionError::NoSuchDomain) {
        Outcome::Permanent { status, .. } => {
            assert_eq!(status, StatusCode { class: 5, subject: 1, detail: 2 })
        }
        other => panic!("expected a permanent failure, got {:?}", other),
    }
}

#[test]
fn exhausted_route_is_dropped_from_the_cache() {
    let mut cache = RouteCache::new();
    cache.store(b"foobar.org".to_vec(), Route { hosts: vec![mx(b"mx.foobar.org", 10)] }, 1000);
    cache.store(b"other.org".to_vec(), Route { hosts: vec![mx(b"mx.other.org", 10)] }, 1000);
    cache.invalidate(&b"foobar.org".to_vec());
    assert!(cache.find_fresh(&b"foobar.org".to_vec(), 0).is_none());
    assert!(cache.find_fresh(&b"other.org".to_vec(), 0).is_some());
}
