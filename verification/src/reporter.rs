use vstd::prelude::*;

use crate::queue::BoundedFifo;
use crate::report::{FailedReport, NELReport};

verus! {

/// How long a failed report waits before its retry, in milliseconds.
pub const RETRY_TIMEOUT_MS: u64 = 60000;

/// The least time a retry timer is ever armed with, in milliseconds.
pub const RETRY_FLOOR_MS: u64 = 10;

/// How many failed reports the retry queue holds.
pub const RETRY_CAPACITY: usize = 256;

/// How long to sleep before retrying a report that failed at `last_try`,
/// seen from `now`: the remainder of the retry timeout, but never less
/// than the floor — the delay is `max(RETRY_FLOOR_MS, RETRY_TIMEOUT_MS -
/// elapsed)`, so it is positive even when the timeout has fully passed.
pub open spec fn spec_retry_delay(now: u64, last_try: u64) -> u64 {
    let elapsed = if now >= last_try {
        now - last_try
    } else {
        0
    };
    if RETRY_TIMEOUT_MS - elapsed >= RETRY_FLOOR_MS {
        (RETRY_TIMEOUT_MS - elapsed) as u64
    } else {
        RETRY_FLOOR_MS
    }
}

pub fn retry_delay(now: u64, last_try: u64) -> (r: u64)
    ensures
        r == spec_retry_delay(now, last_try),
{
    let elapsed: u64 = if now >= last_try {
        now - last_try
    } else {
        0
    };
    if elapsed <= RETRY_TIMEOUT_MS - RETRY_FLOOR_MS {
        RETRY_TIMEOUT_MS - elapsed
    } else {
        RETRY_FLOOR_MS
    }
}

/// The retry state the reporter loop carries: the one report whose retry
/// timer is armed, and the bounded queue of further failed reports.
pub struct ReporterState {
    next_failed: Option<FailedReport>,
    retry_queue: BoundedFifo<FailedReport>,
}

impl ReporterState {
    /// The report whose retry timer is armed, if any.
    pub closed spec fn spec_next_failed(&self) -> Option<FailedReport> {
        self.next_failed
    }

    /// The failed reports waiting behind the armed one, oldest first.
    pub closed spec fn retry_view(&self) -> Seq<FailedReport> {
        self.retry_queue.view()
    }

    pub closed spec fn wf(&self) -> bool {
        self.retry_queue.wf() && self.retry_queue.spec_capacity() == RETRY_CAPACITY as int
    }

    pub fn new() -> (r: ReporterState)
        ensures
            r.wf(),
            r.spec_next_failed() is None,
            r.retry_view() =~= Seq::<FailedReport>::empty(),
    {
        ReporterState { next_failed: None, retry_queue: BoundedFifo::new(RETRY_CAPACITY) }
    }

    /// Whether a retry timer is currently armed.
    pub fn has_retry(&self) -> (r: bool)
        ensures
            r == (self.spec_next_failed() is Some),
    {
        self.next_failed.is_some()
    }

    /// The report the armed retry timer will resend.
    pub fn retry_report(&self) -> (r: Option<&NELReport>)
        ensures
            match self.spec_next_failed() {
                Some(f) => r is Some && *r.unwrap() == f.original,
                None => r is None,
            },
    {
        match &self.next_failed {
            Some(f) => Some(&f.original),
            None => None,
        }
    }

    /// Records that delivering `report` failed at time `now`.  When no
    /// retry timer is armed the report becomes the armed one and the
    /// timer duration to arm is returned; otherwise the report joins the
    /// retry queue, which drops it when full.
    pub fn on_post_failed(&mut self, report: NELReport, now: u64) -> (r: Option<u64>)
        requires
            old(self).wf(),
        ensures
            final(self).wf(),
            match old(self).spec_next_failed() {
                None => r == Some(RETRY_TIMEOUT_MS) && final(self).spec_next_failed() == Some(
                    FailedReport { last_try: now, original: report },
                ) && final(self).retry_view() == old(self).retry_view(),
                Some(f) => r is None && final(self).spec_next_failed() == Some(f) && (old(self).retry_view().len() < RETRY_CAPACITY as int ==> final(self).retry_view() == old(self).retry_view().push(FailedReport { last_try: now, original: report })) && (old(self).retry_view().len() >= RETRY_CAPACITY as int ==> final(self).retry_view() == old(self).retry_view()),
            },
    {
        let failed = FailedReport { last_try: now, original: report };
        if self.next_failed.is_none() {
            self.next_failed = Some(failed);
            Some(RETRY_TIMEOUT_MS)
        } else {
            let _ = self.retry_queue.try_push(failed);
            None
        }
    }

    /// Settles the armed retry after its delivery attempt at time `now`:
    /// a failed attempt re-queues the report (dropped when the queue is
    /// full), then the next queued failure becomes the armed one and the
    /// timer duration to arm for it is returned; with the queue empty the
    /// timer is disarmed.
    pub fn after_retry(&mut self, success: bool, now: u64) -> (r: Option<u64>)
        requires
            old(self).wf(),
            old(self).spec_next_failed() is Some,
        ensures
            final(self).wf(),
            ({
                let requeued: Seq<FailedReport> = if success {
                    old(self).retry_view()
                } else if old(self).retry_view().len() < RETRY_CAPACITY as int {
                    old(self).retry_view().push(
                        FailedReport {
                            last_try: now,
                            original: old(self).spec_next_failed().unwrap().original,
                        },
                    )
                } else {
                    old(self).retry_view()
                };
                if requeued.len() == 0 {
                    r is None && final(self).spec_next_failed() is None && final(self).retry_view() == requeued
                } else {
                    r == Some(spec_retry_delay(now, requeued[0].last_try)) && final(self).spec_next_failed() == Some(requeued[0]) && final(self).retry_view()
                        == requeued.drop_first()
                }
            }),
    {
        let armed = self.next_failed.take();
        if !success {
            let f = armed.unwrap();
            let _ = self.retry_queue.try_push(
                FailedReport { last_try: now, original: f.original },
            );
        }
        match self.retry_queue.try_pop() {
            Some(f) => {
                let d = retry_delay(now, f.last_try);
                self.next_failed = Some(f);
                Some(d)
            },
            None => {
                self.next_failed = None;
                None
            },
        }
    }
}

/// The retry queue never holds more than its capacity; overflow drops
/// reports rather than growing the queue.
pub proof fn lemma_retry_queue_bounded(s: ReporterState)
    requires
        s.wf(),
    ensures
        s.retry_view().len() <= RETRY_CAPACITY as int,
{
}

} // verus!
