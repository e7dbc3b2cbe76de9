//! Route resolution: turning a resolver's answer for a domain into an
//! ordered list of candidate hosts, and a TTL-bounded cache of routes.
//!
//! The DNS lookups themselves happen outside the engine; their answers come
//! in as plain values.  When a domain has no mail-exchange records but does
//! have an address record, the domain itself becomes the single implicit
//! candidate with preference 0; a domain with neither is a permanent
//! resolution failure.

use crate::status::{Outcome, Severity, StatusCode};
use vstd::prelude::*;
use vstd::seq_lib::group_to_multiset_ensures;
use vstd::string::StringSliceAdditionalSpecFns;

verus! {

/// One candidate host with its preference rank.
pub struct MxRecord {
    pub host: Vec<u8>,
    pub preference: u16,
}

/// The resolver's answer for a domain's mail-exchange lookup.
pub enum MxAnswer {
    /// The domain's mail-exchange records, in any order.
    Records(Vec<MxRecord>),
    /// The domain exists but has no mail-exchange records.
    NoRecords,
    /// The domain does not exist.
    NotFound,
    /// The lookup failed transiently (timeout, server failure).
    ServerFailure,
}

/// Why no route could be built.
#[derive(Clone, Copy, PartialEq, Eq, Structural, Debug)]
pub enum ResolutionError {
    /// Retryable: the lookup itself failed.
    Transient,
    /// Permanent: the domain cannot receive mail.
    NoSuchDomain,
}

/// An ordered sequence of candidate hosts for one domain.
pub struct Route {
    pub hosts: Vec<MxRecord>,
}

/// Candidates ordered by ascending preference.
pub open spec fn sorted_by_pref(s: Seq<MxRecord>) -> bool {
    forall|i: int, j: int| 0 <= i < j < s.len() ==> s[i].preference <= s[j].preference
}

impl Route {
    pub open spec fn wf(&self) -> bool {
        &&& self.hosts@.len() >= 1
        &&& sorted_by_pref(self.hosts@)
    }
}

/// Sorts candidates by ascending preference.  The result holds exactly the
/// given records; the relative order of candidates sharing a preference is
/// left open by this contract, so the caller may pre-shuffle equal-rank
/// candidates to spread load.
fn sort_by_pref(v: Vec<MxRecord>) -> (r: Vec<MxRecord>)
    ensures
        sorted_by_pref(r@),
        r@.to_multiset() == v@.to_multiset(),
        r@.len() == v@.len(),
{
    broadcast use group_to_multiset_ensures;
    broadcast use vstd::multiset::group_multiset_axioms;

    let mut src = v;
    let mut out: Vec<MxRecord> = Vec::new();
    proof {
        assert(out@.to_multiset().add(src@.to_multiset()) =~= v@.to_multiset());
    }
    while src.len() > 0
        invariant
            out@.to_multiset().add(src@.to_multiset()) == v@.to_multiset(),
            out@.len() + src@.len() == v@.len(),
            sorted_by_pref(out@),
            forall|i: int, j: int|
                0 <= i < out@.len() && 0 <= j < src@.len() ==> out@[i].preference
                    <= src@[j].preference,
        decreases src.len(),
    {
        let ghost src0 = src@;
        let ghost out0 = out@;
        // first index of minimal preference
        let mut m: usize = 0;
        let mut t: usize = 1;
        while t < src.len()
            invariant
                src@.len() > 0,
                m < t <= src@.len() || (t <= 1 && m == 0),
                m < src@.len(),
                forall|j: int| 0 <= j < t && j < src@.len() ==> src@[m as int].preference <= src@[j].preference,
            decreases src@.len() - t,
        {
            if src[t].preference < src[m].preference {
                m = t;
            }
            t = t + 1;
        }
        let x = src.remove(m);
        out.push(x);
        proof {
            broadcast use group_to_multiset_ensures;
            broadcast use vstd::multiset::group_multiset_axioms;

            assert(src@ == src0.remove(m as int));
            assert(out@ == out0.push(x));
            assert(src0.remove(m as int).to_multiset() =~= src0.to_multiset().remove(
                src0[m as int],
            ));
            assert(out0.push(x).to_multiset() =~= out0.to_multiset().insert(x));
            assert(src0.contains(src0[m as int]));
            assert(src0.to_multiset().count(src0[m as int]) > 0);
            assert(out@.to_multiset().add(src@.to_multiset()) =~= v@.to_multiset());
            assert forall|i: int, j: int|
                0 <= i < out@.len() && 0 <= j < src@.len() implies out@[i].preference
                <= src@[j].preference by {
                if i < out0.len() {
                    assert(out@[i] == out0[i]);
                }
            }
        }
    }
    proof {
        broadcast use group_to_multiset_ensures;
        broadcast use vstd::multiset::group_multiset_axioms;

        assert forall|e: MxRecord|
            out@.to_multiset().add(src@.to_multiset()).count(e) == out@.to_multiset().count(
                e,
            ) by {
            assert(!src@.contains(e));
            assert(src@.to_multiset().count(e) == 0);
        }
        assert(out@.to_multiset().add(src@.to_multiset()) =~= out@.to_multiset());
    }
    out
}

/// Builds the route for a domain from the resolver's answer:
/// - mail-exchange records are ordered by ascending preference;
/// - a domain without such records is its own single implicit candidate with
///   preference 0, provided it has an address record, and otherwise a
///   permanent `NoSuchDomain` failure;
/// - a domain that does not exist is a permanent `NoSuchDomain` failure;
/// - a failed lookup is a `Transient` failure, to be retried.
pub fn build_route(answer: MxAnswer, domain: &Vec<u8>, has_address: bool) -> (r: Result<
    Route,
    ResolutionError,
>)
    ensures
        match answer {
            MxAnswer::Records(v) => {
                if v@.len() > 0 {
                    &&& r is Ok
                    &&& r->Ok_0.wf()
                    &&& r->Ok_0.hosts@.to_multiset() == v@.to_multiset()
                    &&& r->Ok_0.hosts@.len() == v@.len()
                } else if has_address {
                    &&& r is Ok
                    &&& r->Ok_0.wf()
                    &&& r->Ok_0.hosts@.len() == 1
                    &&& r->Ok_0.hosts@[0].host@ == domain@
                    &&& r->Ok_0.hosts@[0].preference == 0
                } else {
                    r == Result::<Route, ResolutionError>::Err(ResolutionError::NoSuchDomain)
                }
            },
            MxAnswer::NoRecords => {
                if has_address {
                    &&& r is Ok
                    &&& r->Ok_0.wf()
                    &&& r->Ok_0.hosts@.len() == 1
                    &&& r->Ok_0.hosts@[0].host@ == domain@
                    &&& r->Ok_0.hosts@[0].preference == 0
                } else {
                    r == Result::<Route, ResolutionError>::Err(ResolutionError::NoSuchDomain)
                }
            },
            MxAnswer::NotFound => r == Result::<Route, ResolutionError>::Err(
                ResolutionError::NoSuchDomain,
            ),
            MxAnswer::ServerFailure => r == Result::<Route, ResolutionError>::Err(
                ResolutionError::Transient,
            ),
        },
{
    match answer {
        MxAnswer::Records(v) => {
            if v.len() > 0 {
                let hosts = sort_by_pref(v);
                Ok(Route { hosts })
            } else {
                implicit_route(domain, has_address)
            }
        },
        MxAnswer::NoRecords => implicit_route(domain, has_address),
        MxAnswer::NotFound => Err(ResolutionError::NoSuchDomain),
        MxAnswer::ServerFailure => Err(ResolutionError::Transient),
    }
}

fn implicit_route(domain: &Vec<u8>, has_address: bool) -> (r: Result<Route, ResolutionError>)
    ensures
        if has_address {
            &&& r is Ok
            &&& r->Ok_0.wf()
            &&& r->Ok_0.hosts@.len() == 1
            &&& r->Ok_0.hosts@[0].host@ == domain@
            &&& r->Ok_0.hosts@[0].preference == 0
        } else {
            r == Result::<Route, ResolutionError>::Err(ResolutionError::NoSuchDomain)
        },
{
    if has_address {
        let mut hosts: Vec<MxRecord> = Vec::new();
        hosts.push(MxRecord { host: crate::bytes::copy_bytes(domain), preference: 0 });
        Ok(Route { hosts })
    } else {
        Err(ResolutionError::NoSuchDomain)
    }
}

/// The status reported for a resolution failure.
pub open spec fn resolution_status(e: ResolutionError) -> StatusCode {
    match e {
        ResolutionError::Transient => StatusCode { class: 4, subject: 4, detail: 3 },
        ResolutionError::NoSuchDomain => StatusCode { class: 5, subject: 1, detail: 2 },
    }
}

/// The outcome a resolution failure stands for: a failed lookup is a
/// temporary failure that feeds the retry scheduler; a domain that cannot
/// receive mail fails every recipient for that domain permanently, without
/// consuming a connection attempt.
pub fn resolution_outcome(e: ResolutionError) -> (o: Outcome)
    ensures
        o.severity() == (if e == ResolutionError::Transient {
            Severity::Temporary
        } else {
            Severity::Permanent
        }),
        o.status() == resolution_status(e),
{
    match e {
        ResolutionError::Transient => Outcome::Temporary {
            status: StatusCode { class: 4, subject: 4, detail: 3 },
            diag: crate::bytes::str_bytes("name resolution failed; will retry"),
        },
        ResolutionError::NoSuchDomain => Outcome::Permanent {
            status: StatusCode { class: 5, subject: 1, detail: 2 },
            diag: crate::bytes::str_bytes("domain has no mail exchanger and no address"),
        },
    }
}

/// One cached route with its refresh deadline.
pub struct CacheEntry {
    pub domain: Vec<u8>,
    pub route: Route,
    /// The instant at which this entry stops being served (resolver TTL).
    pub expires: u64,
}

/// TTL-bounded route cache, one entry per domain.
pub struct RouteCache {
    pub entries: Vec<CacheEntry>,
}

impl RouteCache {
    /// At most one entry per domain.
    pub open spec fn wf(&self) -> bool {
        forall|i: int, j: int|
            0 <= i < j < self.entries@.len() ==> (#[trigger] self.entries@[i]).domain@ != (
            #[trigger] self.entries@[j]).domain@
    }

    pub fn new() -> (r: RouteCache)
        ensures
            r.wf(),
            r.entries@.len() == 0,
    {
        RouteCache { entries: Vec::new() }
    }

    /// Finds the cached entry for `domain` that is still fresh at `now`, if
    /// any, as an index into `entries`.
    pub fn find_fresh(&self, domain: &Vec<u8>, now: u64) -> (r: Option<usize>)
        ensures
            match r {
                Some(i) => {
                    &&& i < self.entries@.len()
                    &&& self.entries@[i as int].domain@ == domain@
                    &&& self.entries@[i as int].expires > now
                },
                None => forall|i: int|
                    0 <= i < self.entries@.len() ==> ((#[trigger] self.entries@[i]).domain@
                        != domain@ || self.entries@[i].expires <= now),
            },
    {
        let mut k: usize = 0;
        while k < self.entries.len()
            invariant
                k <= self.entries@.len(),
                forall|i: int|
                    0 <= i < k ==> ((#[trigger] self.entries@[i]).domain@ != domain@
                        || self.entries@[i].expires <= now),
            decreases self.entries@.len() - k,
        {
            if crate::bytes::bytes_eq(&self.entries[k].domain, domain) && self.entries[k].expires
                > now {
                return Some(k);
            }
            k = k + 1;
        }
        None
    }

    /// Drops the entry for `domain`, if any: used when every candidate of
    /// the cached route has been tried and failed, so the next cycle
    /// recomputes the route.  Every other domain's entry is untouched.
    pub fn invalidate(&mut self, domain: &Vec<u8>)
        requires
            old(self).wf(),
        ensures
            final(self).wf(),
            forall|i: int|
                0 <= i < final(self).entries@.len() ==> (#[trigger] final(self).entries@[i]).domain@
                    != domain@,
            forall|i: int|
                0 <= i < old(self).entries@.len() && (#[trigger] old(self).entries@[i]).domain@
                    != domain@ ==> final(self).entries@.contains(old(self).entries@[i]),
            forall|i: int|
                0 <= i < final(self).entries@.len() ==> old(self).entries@.contains(
                    #[trigger] final(self).entries@[i],
                ),
    {
        let mut k: usize = 0;
        while k < self.entries.len()
            invariant
                k <= self.entries@.len(),
                old(self).wf(),
                self.entries@ == old(self).entries@,
                forall|i: int|
                    0 <= i < k ==> (#[trigger] self.entries@[i]).domain@ != domain@,
            decreases self.entries@.len() - k,
        {
            if crate::bytes::bytes_eq(&self.entries[k].domain, domain) {
                let ghost before = self.entries@;
                self.entries.remove(k);
                proof {
                    assert forall|i: int|
                        0 <= i < self.entries@.len() implies (#[trigger] self.entries@[i]).domain@
                        != domain@ by {
                        if i < k {
                            assert(self.entries@[i] == before[i]);
                        } else {
                            assert(self.entries@[i] == before[i + 1]);
                            assert(before[k as int].domain@ != before[i + 1].domain@);
                        }
                    }
                    assert forall|i: int|
                        0 <= i < before.len() && (#[trigger] before[i]).domain@ != domain@ implies self.entries@.contains(
                        before[i],
                    ) by {
                        if i < k {
                            assert(self.entries@[i] == before[i]);
                        } else if i > k {
                            assert(self.entries@[i - 1] == before[i]);
                        }
                    }
                    assert forall|i: int|
                        0 <= i < self.entries@.len() implies before.contains(
                        #[trigger] self.entries@[i],
                    ) by {
                        if i < k {
                            assert(self.entries@[i] == before[i]);
                        } else {
                            assert(self.entries@[i] == before[i + 1]);
                        }
                    }
                    assert forall|i: int, j: int|
                        0 <= i < j < self.entries@.len() implies (
                    #[trigger] self.entries@[i]).domain@ != (#[trigger] self.entries@[j]).domain@ by {
                        let i0: int = if i < k { i } else { i + 1 };
                        let j0: int = if j < k { j } else { j + 1 };
                        assert(self.entries@[i] == before[i0]);
                        assert(self.entries@[j] == before[j0]);
                        assert(before[i0].domain@ != before[j0].domain@);
                    }
                }
                return ;
            }
            k = k + 1;
        }
        proof {
            assert forall|i: int|
                0 <= i < old(self).entries@.len() && (#[trigger] old(self).entries@[i]).domain@
                    != domain@ implies final(self).entries@.contains(old(self).entries@[i]) by {
                assert(final(self).entries@[i] == old(self).entries@[i]);
            }
            assert forall|i: int|
                0 <= i < final(self).entries@.len() implies old(self).entries@.contains(
                #[trigger] final(self).entries@[i],
            ) by {
                assert(final(self).entries@[i] == old(self).entries@[i]);
            }
        }
    }

    /// Stores or refreshes the route for `domain`.  The entry for `domain`
    /// is replaced (or created); every other domain's entry is untouched.
    pub fn store(&mut self, domain: Vec<u8>, route: Route, expires: u64)
        requires
            old(self).wf(),
        ensures
            final(self).wf(),
            if exists|i: int|
                0 <= i < old(self).entries@.len() && (#[trigger] old(self).entries@[i]).domain@
                    == domain@ {
                exists|i: int|
                    {
                        &&& 0 <= i < old(self).entries@.len()
                        &&& (#[trigger] old(self).entries@[i]).domain@ == domain@
                        &&& final(self).entries@ == old(self).entries@.update(
                            i,
                            CacheEntry { domain, route, expires },
                        )
                    }
            } else {
                final(self).entries@ == old(self).entries@.push(
                    CacheEntry { domain, route, expires },
                )
            },
    {
        let mut k: usize = 0;
        while k < self.entries.len()
            invariant
                k <= self.entries@.len(),
                self.entries@ == old(self).entries@,
                old(self).wf(),
                forall|i: int|
                    0 <= i < k ==> (#[trigger] self.entries@[i]).domain@ != domain@,
            decreases self.entries@.len() - k,
        {
            if crate::bytes::bytes_eq(&self.entries[k].domain, &domain) {
                self.entries.set(k, CacheEntry { domain, route, expires });
                proof {
                    assert forall|i: int, j: int|
                        0 <= i < j < self.entries@.len() implies (
                    #[trigger] self.entries@[i]).domain@ != (#[trigger] self.entries@[j]).domain@ by {
                        assert(old(self).entries@[i].domain@ != old(self).entries@[j].domain@);
                    }
                }
                return ;
            }
            k = k + 1;
        }
        self.entries.push(CacheEntry { domain, route, expires });
        proof {
            assert forall|i: int, j: int|
                0 <= i < j < self.entries@.len() implies (#[trigger] self.entries@[i]).domain@ != (
            #[trigger] self.entries@[j]).domain@ by {
                if j < old(self).entries@.len() {
                    assert(old(self).entries@[i].domain@ != old(self).entries@[j].domain@);
                }
            }
        }
    }
}

} // verus!
