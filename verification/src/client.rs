use vstd::prelude::*;

use crate::cache::{is_live, spec_lookup, CacheEntry, TtlCache};
use crate::headers::{
    parse_nel, parse_report_to, spec_parse_nel, spec_parse_report_to, strs_view, ReportToSpec,
};
use crate::queue::BoundedFifo;
use crate::report::NELReport;
use crate::strutil::chars_of;

verus! {

/// How many entries each policy cache holds.
pub const CACHE_CAPACITY: usize = 50;

/// How many reports the intake queue holds.
pub const INTAKE_CAPACITY: usize = 256;

/// The fixed-point scale of sampling fractions: one million means 1.0.
pub const FRACTION_SCALE: u32 = 1000000;

/// The per-host NEL policy distilled from a `NEL` header: the group to
/// report to and the sampling fractions, in parts per million.
pub struct NELPolicy {
    pub report_to: String,
    pub success_ppm: u32,
    pub failure_ppm: u32,
}

/// The host component of a URL as the `url` crate parses it, if the URL
/// is well formed and has one.
pub uninterp spec fn url_host(s: Seq<char>) -> Option<Seq<char>>;

/// Relies on `url::Url::parse` and `Url::host_str`: the host component
/// of a URL text, a function of the text alone.
#[verifier::external_body]
fn parse_url_host(url: &str) -> (r: Option<String>)
    ensures
        match r {
            Some(h) => url_host(url@) == Some(h@),
            None => url_host(url@) is None,
        },
{
    match url::Url::parse(url) {
        Ok(u) => u.host_str().map(|h| h.to_string()),
        Err(_) => None,
    }
}

/// Relies on rand::random; nothing is promised of the value drawn.
pub assume_specification<T>[ rand::random::<T> ]() -> (r: T)
    where
        rand::distributions::Standard: rand::distributions::Distribution<T>,
;

/// The host a report's policies are looked up under: an explicit
/// override if the report carries one, else the host of its URL.
pub open spec fn spec_report_host(r: NELReport) -> Option<Seq<char>> {
    match r.host_override {
        Some(h) => Some(h@),
        None => url_host(r.url@),
    }
}

/// When a cache entry expires: `now` plus the advertised lifetime in
/// seconds, saturating at the largest representable time.
pub open spec fn spec_expiry(now: u64, max_age_s: u64) -> u64 {
    if now + max_age_s * 1000 > 0xffff_ffff_ffff_ffff {
        0xffff_ffff_ffff_ffff as u64
    } else {
        (now + max_age_s * 1000) as u64
    }
}

fn expiry(now: u64, max_age_s: u64) -> (r: u64)
    ensures
        r == spec_expiry(now, max_age_s),
{
    let m: u64 = 0xffff_ffff_ffff_ffff;
    if max_age_s > m / 1000 {
        proof {
            assert(m / 1000 * 1000 + m % 1000 == m);
        }
        return m;
    }
    proof {
        assert(max_age_s * 1000 <= m / 1000 * 1000 <= m);
    }
    let t = max_age_s * 1000;
    if now > m - t {
        m
    } else {
        now + t
    }
}

/// The client state: the two policy caches and the intake queue.  One
/// value of this type stands behind the library's entry points; the
/// embedder serializes access to it.
pub struct NelClient {
    nel_policies: TtlCache<NELPolicy>,
    group_policies: TtlCache<Vec<String>>,
    intake: BoundedFifo<NELReport>,
}

impl NelClient {
    /// The entries of the per-host NEL policy cache.
    pub closed spec fn nel_view(&self) -> Seq<CacheEntry<NELPolicy>> {
        self.nel_policies.view()
    }

    /// The entries of the endpoint-group cache, keyed `host:group`.
    pub closed spec fn group_view(&self) -> Seq<CacheEntry<Vec<String>>> {
        self.group_policies.view()
    }

    /// The queued reports, oldest first.
    pub closed spec fn intake_view(&self) -> Seq<NELReport> {
        self.intake.view()
    }

    pub closed spec fn wf(&self) -> bool {
        self.nel_policies.wf() && self.group_policies.wf() && self.intake.wf()
            && self.intake.spec_capacity() == INTAKE_CAPACITY as int
            && self.nel_policies.spec_capacity() == CACHE_CAPACITY as int
            && self.group_policies.spec_capacity() == CACHE_CAPACITY as int
    }

    pub fn new() -> (r: NelClient)
        ensures
            r.wf(),
            r.nel_view() =~= Seq::<CacheEntry<NELPolicy>>::empty(),
            r.group_view() =~= Seq::<CacheEntry<Vec<String>>>::empty(),
            r.intake_view() =~= Seq::<NELReport>::empty(),
    {
        NelClient {
            nel_policies: TtlCache::new(CACHE_CAPACITY),
            group_policies: TtlCache::new(CACHE_CAPACITY),
            intake: BoundedFifo::new(INTAKE_CAPACITY),
        }
    }

    /// Takes the value of a `NEL` header received for `host` at time
    /// `now` and caches the policy it advertises.  A malformed header, an
    /// empty `report_to` or an out-of-range fraction changes nothing; a
    /// `max_age` of zero removes the host's policy; anything else stores
    /// the policy for `max_age` seconds.
    pub fn nel_header(&mut self, host: &str, hdr: &str, now: u64)
        requires
            old(self).wf(),
        ensures
            final(self).wf(),
            final(self).group_view() == old(self).group_view(),
            final(self).intake_view() == old(self).intake_view(),
            match spec_parse_nel(hdr@) {
                None => final(self).nel_view() == old(self).nel_view(),
                Some(d) => {
                    if d.report_to.len() == 0 {
                        final(self).nel_view() == old(self).nel_view()
                    } else if d.max_age == 0 {
                        spec_lookup(final(self).nel_view(), host@) is None && (forall|
                            k2: Seq<char>,
                        |
                            k2 != host@ ==> spec_lookup(final(self).nel_view(), k2) == spec_lookup(
                                old(self).nel_view(),
                                k2,
                            ))
                    } else {
                        spec_lookup(final(self).nel_view(), host@) is Some && {
                            let e = spec_lookup(final(self).nel_view(), host@).unwrap();
                            e.value.report_to@ == d.report_to && e.value.success_ppm
                                == d.success_ppm && e.value.failure_ppm == d.failure_ppm
                                && e.expires_at == spec_expiry(now, d.max_age as u64)
                        } && (forall|k2: Seq<char>|
                            k2 != host@ && spec_lookup(final(self).nel_view(), k2) is Some
                                ==> spec_lookup(old(self).nel_view(), k2) == spec_lookup(
                                final(self).nel_view(),
                                k2,
                            )) && (old(self).nel_view().len() < CACHE_CAPACITY as int
                            ==> forall|k2: Seq<char>|
                                k2 != host@ && spec_lookup(old(self).nel_view(), k2) is Some
                                    && is_live(spec_lookup(old(self).nel_view(), k2).unwrap(), now)
                                    ==> spec_lookup(final(self).nel_view(), k2) == spec_lookup(
                                    old(self).nel_view(),
                                    k2,
                                ))
                    }
                },
            },
    {
        let cs = chars_of(hdr);
        let parsed = match parse_nel(&cs) {
            None => {
                return ;
            },
            Some(p) => p,
        };
        if parsed.report_to.as_str().is_empty() {
            return ;
        }
        if parsed.max_age == 0 {
            self.nel_policies.remove(host);
            return ;
        }
        let policy = NELPolicy {
            report_to: parsed.report_to,
            success_ppm: parsed.success_ppm,
            failure_ppm: parsed.failure_ppm,
        };
        let exp = expiry(now, parsed.max_age);
        self.nel_policies.insert(host.to_owned(), policy, exp, now);
    }

    /// Takes the value of a `Report-To` header received for `host` at
    /// time `now` and caches the group's endpoint URLs under
    /// `host:group`.  A malformed header, an empty group name, no
    /// endpoints or an empty endpoint URL changes nothing; a `max_age` of
    /// zero removes the group; anything else stores the URL list for
    /// `max_age` seconds.
    pub fn report_to_header(&mut self, host: &str, hdr: &str, now: u64)
        requires
            old(self).wf(),
        ensures
            final(self).wf(),
            final(self).nel_view() == old(self).nel_view(),
            final(self).intake_view() == old(self).intake_view(),
            match spec_parse_report_to(hdr@) {
                None => final(self).group_view() == old(self).group_view(),
                Some(d) => {
                    let key = host@ + ":"@ + d.group;
                    if d.group.len() == 0 || d.endpoints.len() == 0 || exists|k: int|
                        0 <= k < d.endpoints.len() && d.endpoints[k].len() == 0 {
                        final(self).group_view() == old(self).group_view()
                    } else if d.max_age == 0 {
                        spec_lookup(final(self).group_view(), key) is None && (forall|
                            k2: Seq<char>,
                        |
                            k2 != key ==> spec_lookup(final(self).group_view(), k2) == spec_lookup(
                                old(self).group_view(),
                                k2,
                            ))
                    } else {
                        spec_lookup(final(self).group_view(), key) is Some && {
                            let e = spec_lookup(final(self).group_view(), key).unwrap();
                            strs_view(e.value@) == d.endpoints && e.expires_at == spec_expiry(
                                now,
                                d.max_age as u64,
                            )
                        } && (forall|k2: Seq<char>|
                            k2 != key && spec_lookup(final(self).group_view(), k2) is Some
                                ==> spec_lookup(old(self).group_view(), k2) == spec_lookup(
                                final(self).group_view(),
                                k2,
                            )) && (old(self).group_view().len() < CACHE_CAPACITY as int
                            ==> forall|k2: Seq<char>|
                                k2 != key && spec_lookup(old(self).group_view(), k2) is Some
                                    && is_live(
                                    spec_lookup(old(self).group_view(), k2).unwrap(),
                                    now,
                                ) ==> spec_lookup(final(self).group_view(), k2) == spec_lookup(
                                    old(self).group_view(),
                                    k2,
                                ))
                    }
                },
            },
    {
        let cs = chars_of(hdr);
        let parsed = match parse_report_to(&cs) {
            None => {
                return ;
            },
            Some(p) => p,
        };
        if parsed.group.as_str().is_empty() {
            return ;
        }
        if parsed.endpoints.len() == 0 {
            return ;
        }
        let mut k: usize = 0;
        while k < parsed.endpoints.len()
            invariant
                *self == *old(self),
                old(self).wf(),
                spec_parse_report_to(hdr@) == Some(
                    ReportToSpec {
                        group: parsed.group@,
                        max_age: parsed.max_age as int,
                        endpoints: strs_view(parsed.endpoints@),
                    },
                ),
                k <= parsed.endpoints@.len(),
                forall|m: int| 0 <= m < k ==> strs_view(parsed.endpoints@)[m].len() > 0,
            decreases parsed.endpoints@.len() - k,
        {
            if parsed.endpoints[k].as_str().is_empty() {
                proof {
                    assert(strs_view(parsed.endpoints@)[k as int].len() == 0);
                }
                return ;
            }
            k = k + 1;
        }
        let mut key = host.to_owned();
        key.append(":");
        key.append(parsed.group.as_str());
        if parsed.max_age == 0 {
            self.group_policies.remove(key.as_str());
            return ;
        }
        let exp = expiry(now, parsed.max_age);
        self.group_policies.insert(key, parsed.endpoints, exp, now);
    }

    /// Queues a report for delivery.  The queue is bounded: when it is
    /// full the report is silently dropped.
    pub fn submit_report(&mut self, report: NELReport)
        requires
            old(self).wf(),
        ensures
            final(self).wf(),
            final(self).nel_view() == old(self).nel_view(),
            final(self).group_view() == old(self).group_view(),
            old(self).intake_view().len() < INTAKE_CAPACITY as int ==> final(self).intake_view()
                == old(self).intake_view().push(report),
            old(self).intake_view().len() >= INTAKE_CAPACITY as int ==> final(self).intake_view()
                == old(self).intake_view(),
    {
        let _ = self.intake.try_push(report);
    }

    /// Dequeues the oldest submitted report, if any.
    pub fn pop_report(&mut self) -> (r: Option<NELReport>)
        requires
            old(self).wf(),
        ensures
            final(self).wf(),
            final(self).nel_view() == old(self).nel_view(),
            final(self).group_view() == old(self).group_view(),
            old(self).intake_view().len() == 0 ==> r is None && final(self).intake_view() == old(self).intake_view(),
            old(self).intake_view().len() > 0 ==> r == Some(old(self).intake_view()[0]) && final(self).intake_view() == old(self).intake_view().drop_first(),
    {
        self.intake.try_pop()
    }

    /// The live NEL policy governing a report at time `now`, if its host
    /// can be determined and a policy is cached.
    pub open spec fn spec_policy_of(&self, r: NELReport, now: u64) -> Option<NELPolicy> {
        match spec_report_host(r) {
            None => None,
            Some(h) => match spec_lookup(self.nel_view(), h) {
                None => None,
                Some(e) => if is_live(e, now) {
                    Some(e.value)
                } else {
                    None
                },
            },
        }
    }

    /// The live, non-empty endpoint list a report would be sent to at
    /// time `now`, if its policy and group are cached.
    pub open spec fn spec_endpoints_of(&self, r: NELReport, now: u64) -> Option<Seq<String>> {
        match spec_report_host(r) {
            None => None,
            Some(h) => match self.spec_policy_of(r, now) {
                None => None,
                Some(pol) => {
                    let key = h + ":"@ + pol.report_to@;
                    match spec_lookup(self.group_view(), key) {
                        None => None,
                        Some(e) => if is_live(e, now) && e.value@.len() > 0 {
                            Some(e.value@)
                        } else {
                            None
                        },
                    }
                },
            },
        }
    }

    /// The sampling fraction that applies to a report, in parts per
    /// million: the success fraction for a success report, the failure
    /// fraction otherwise.
    pub open spec fn spec_fraction_for(pol: NELPolicy, r: NELReport) -> int {
        if r.phase@.len() == 0 {
            pol.success_ppm as int
        } else {
            pol.failure_ppm as int
        }
    }

    /// What the endpoint choice yields for given random draws: none when
    /// no live policy or endpoint list is cached, none when sampling
    /// drops the report, and otherwise the endpoint the pick selects.
    pub open spec fn spec_select(
        &self,
        r: NELReport,
        evaluate_drop: bool,
        now: u64,
        u_drop: u64,
        u_pick: u64,
    ) -> Option<String> {
        match self.spec_policy_of(r, now) {
            None => None,
            Some(pol) => match self.spec_endpoints_of(r, now) {
                None => None,
                Some(eps) => if evaluate_drop && u_drop as int % (FRACTION_SCALE as int)
                    >= Self::spec_fraction_for(pol, r) {
                    None
                } else {
                    Some(eps[u_pick as int % (eps.len() as int)])
                },
            },
        }
    }

    /// Chooses the endpoint for a report, the sampling and pick decided
    /// by the two given draws.
    pub fn select_endpoint(
        &self,
        report: &NELReport,
        evaluate_drop: bool,
        now: u64,
        u_drop: u64,
        u_pick: u64,
    ) -> (r: Option<String>)
        requires
            self.wf(),
        ensures
            r == self.spec_select(*report, evaluate_drop, now, u_drop, u_pick),
    {
        let host: String = match &report.host_override {
            Some(h) => h.clone(),
            None => {
                match parse_url_host(report.url.as_str()) {
                    Some(h) => h,
                    None => {
                        return None;
                    },
                }
            },
        };
        let pol: &NELPolicy = match self.nel_policies.get(host.as_str(), now) {
            Some(p) => p,
            None => {
                return None;
            },
        };
        let mut key = host.clone();
        key.append(":");
        key.append(pol.report_to.as_str());
        let eps: &Vec<String> = match self.group_policies.get(key.as_str(), now) {
            Some(e) => e,
            None => {
                return None;
            },
        };
        if eps.len() == 0 {
            return None;
        }
        if evaluate_drop {
            let threshold: u32 = if report.is_success() {
                pol.success_ppm
            } else {
                pol.failure_ppm
            };
            if (u_drop % (FRACTION_SCALE as u64)) as u32 >= threshold {
                return None;
            }
        }
        let idx: usize = (u_pick % (eps.len() as u64)) as usize;
        Some(eps[idx].clone())
    }

    /// Chooses the endpoint for a report, drawing the sampling and pick
    /// randomness itself.  Whatever the draws, the result is an endpoint
    /// of the cached group or none; without sampling the result is an
    /// endpoint whenever one is cached, and with sampling a fraction of
    /// one always sends while a fraction of zero never does.
    pub fn choose_endpoint(&self, report: &NELReport, evaluate_drop: bool, now: u64) -> (r:
        Option<String>)
        requires
            self.wf(),
        ensures
            match self.spec_endpoints_of(*report, now) {
                None => r is None,
                Some(eps) => {
                    let pol = self.spec_policy_of(*report, now).unwrap();
                    (match r {
                        Some(u) => eps.contains(u),
                        None => evaluate_drop,
                    }) && (evaluate_drop && Self::spec_fraction_for(pol, *report)
                        == FRACTION_SCALE as int ==> r is Some) && (evaluate_drop
                        && Self::spec_fraction_for(pol, *report) == 0 ==> r is None)
                },
            },
    {
        let u_drop: u64 = rand::random::<u64>();
        let u_pick: u64 = rand::random::<u64>();
        let r = self.select_endpoint(report, evaluate_drop, now, u_drop, u_pick);
        proof {
            if self.spec_endpoints_of(*report, now) is Some {
                let eps = self.spec_endpoints_of(*report, now).unwrap();
                if r is Some {
                    assert(eps.contains(eps[u_pick as int % (eps.len() as int)]));
                }
            }
        }
        r
    }
}

/// The intake queue never holds more than its capacity; overflow drops
/// reports rather than growing the queue.
pub proof fn lemma_intake_bounded(c: NelClient)
    requires
        c.wf(),
    ensures
        c.intake_view().len() <= INTAKE_CAPACITY as int,
{
}

} // verus!
