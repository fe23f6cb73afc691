//! The batch orchestrator: fanning a collection of requests out under
//! the shared permit pool and collecting one outcome per request.
//!
//! The executable machine hands out permits and records outcomes; the
//! spec-level step and run functions state what any interleaving of
//! begin and finish events does to a batch, and the public lemma proves
//! that no interleaving ever has more transfers attempting than the
//! configured maximum.

use vstd::prelude::*;

use crate::error::DownloadError;
use crate::limiter::Limiter;
use crate::request::DownloadRequest;

verus! {

/// The final result for one request: the destination path written, or
/// the terminal error once its retries were exhausted.
pub type DownloadOutcome = Result<String, DownloadError>;

/// Turn one request's terminal retry result into its outcome: success
/// carries the destination path the transfer wrote.
pub fn download_outcome(destination: String, terminal: crate::retry::AttemptResult) -> (r:
    DownloadOutcome)
    ensures
        terminal is Ok ==> r == Ok::<String, DownloadError>(destination),
        terminal matches Err(e) ==> r == Err::<String, DownloadError>(e),
{
    match terminal {
        Ok(()) => Ok(destination),
        Err(e) => Err(e),
    }
}

/// Where one request of a batch stands.
#[derive(Debug)]
pub enum RequestPhase {
    /// Submitted, waiting for a permit.
    Pending,
    /// Holding a permit; its attempt-and-retry loop is running.
    Attempting,
    /// Concluded, permit released.
    Done(DownloadOutcome),
}

/// How many requests of a batch are attempting right now.
pub open spec fn spec_attempting_count(phases: Seq<RequestPhase>) -> nat
    decreases phases.len(),
{
    if phases.len() == 0 {
        0
    } else {
        spec_attempting_count(phases.drop_last()) + (if phases.last() is Attempting {
            1nat
        } else {
            0nat
        })
    }
}

proof fn lemma_attempting_count_update(phases: Seq<RequestPhase>, i: int, v: RequestPhase)
    requires
        0 <= i < phases.len(),
    ensures
        spec_attempting_count(phases.update(i, v)) == spec_attempting_count(phases) + (if v
            is Attempting {
            1int
        } else {
            0int
        }) - (if phases[i] is Attempting {
            1int
        } else {
            0int
        }),
    decreases phases.len(),
{
    let updated = phases.update(i, v);
    if i == phases.len() - 1 {
        assert(updated.drop_last() =~= phases.drop_last());
        assert(updated.last() == v);
    } else {
        assert(updated.drop_last() =~= phases.drop_last().update(i, v));
        assert(updated.last() == phases.last());
        lemma_attempting_count_update(phases.drop_last(), i, v);
    }
}

/// The ghost view of a batch: the permit capacity and each request's
/// phase, in submission order.
#[verifier::ext_equal]
pub struct BatchModel {
    pub capacity: int,
    pub phases: Seq<RequestPhase>,
}

impl BatchModel {
    /// The orchestrator's invariant: never more attempting requests
    /// than permits.
    pub open spec fn wf(self) -> bool {
        &&& self.capacity >= 1
        &&& spec_attempting_count(self.phases) <= self.capacity
    }
}

/// One observable event of a batch run.
pub enum BatchEvent {
    /// Request `i` asks for a permit and, if one is free, starts its
    /// attempt-and-retry loop.
    Begin(usize),
    /// Request `i`'s loop concluded with this outcome; its permit is
    /// released.
    Finish(usize, DownloadOutcome),
}

/// How one event changes a batch. An event that is not enabled — an
/// index out of range, a begin without a free permit or on a request
/// not pending, a finish on a request not attempting — leaves the batch
/// unchanged: the task waits.
pub open spec fn spec_batch_step(m: BatchModel, e: BatchEvent) -> BatchModel {
    match e {
        BatchEvent::Begin(i) => {
            if 0 <= i < m.phases.len() && m.phases[i as int] is Pending && spec_attempting_count(
                m.phases,
            ) < m.capacity {
                BatchModel { capacity: m.capacity, phases: m.phases.update(i as int, RequestPhase::Attempting) }
            } else {
                m
            }
        },
        BatchEvent::Finish(i, outcome) => {
            if 0 <= i < m.phases.len() && m.phases[i as int] is Attempting {
                BatchModel { capacity: m.capacity, phases: m.phases.update(i as int, RequestPhase::Done(outcome)) }
            } else {
                m
            }
        },
    }
}

/// The batch after a whole sequence of events.
pub open spec fn spec_batch_run(m: BatchModel, es: Seq<BatchEvent>) -> BatchModel
    decreases es.len(),
{
    if es.len() == 0 {
        m
    } else {
        spec_batch_run(spec_batch_step(m, es[0]), es.drop_first())
    }
}

proof fn lemma_batch_step_preserves_wf(m: BatchModel, e: BatchEvent)
    requires
        m.wf(),
    ensures
        spec_batch_step(m, e).wf(),
        spec_batch_step(m, e).capacity == m.capacity,
        spec_batch_step(m, e).phases.len() == m.phases.len(),
{
    match e {
        BatchEvent::Begin(i) => {
            if 0 <= i < m.phases.len() && m.phases[i as int] is Pending && spec_attempting_count(
                m.phases,
            ) < m.capacity {
                lemma_attempting_count_update(m.phases, i as int, RequestPhase::Attempting);
            }
        },
        BatchEvent::Finish(i, outcome) => {
            if 0 <= i < m.phases.len() && m.phases[i as int] is Attempting {
                lemma_attempting_count_update(m.phases, i as int, RequestPhase::Done(outcome));
            }
        },
    }
}

/// Law: however many requests a batch holds and in whatever order their
/// begin and finish events arrive, the number of requests attempting at
/// once never exceeds the permit capacity — at the end of the run and,
/// since every prefix of a run is itself a run, at every instant of it.
pub proof fn lemma_batch_attempting_bounded(m: BatchModel, es: Seq<BatchEvent>)
    requires
        m.wf(),
    ensures
        spec_batch_run(m, es).wf(),
        spec_batch_run(m, es).capacity == m.capacity,
        spec_batch_run(m, es).phases.len() == m.phases.len(),
        spec_attempting_count(spec_batch_run(m, es).phases) <= m.capacity,
    decreases es.len(),
{
    if es.len() > 0 {
        lemma_batch_step_preserves_wf(m, es[0]);
        lemma_batch_attempting_bounded(spec_batch_step(m, es[0]), es.drop_first());
    }
}

/// The executable orchestrator for one batch of requests.
#[derive(Debug)]
pub struct BatchRun {
    /// The submitted requests, in submission order.
    pub requests: Vec<DownloadRequest>,
    /// Each request's phase, parallel to `requests`.
    pub phases: Vec<RequestPhase>,
    /// The shared permit pool.
    pub limiter: Limiter,
}

impl View for BatchRun {
    type V = BatchModel;

    open spec fn view(&self) -> BatchModel {
        BatchModel { capacity: self.limiter.capacity as int, phases: self.phases@ }
    }
}

impl BatchRun {
    /// The executable state matches the model and the limiter's count
    /// is exactly the number of attempting requests.
    pub open spec fn wf(self) -> bool {
        &&& self@.wf()
        &&& self.limiter.wf()
        &&& self.phases@.len() == self.requests@.len()
        &&& spec_attempting_count(self.phases@) == self.limiter.in_flight
    }

    pub open spec fn len(self) -> nat {
        self.requests@.len()
    }

    /// Submit a batch: every request pending, every permit free.
    pub fn start(requests: Vec<DownloadRequest>, max_concurrent: usize) -> (b: Self)
        requires
            max_concurrent >= 1,
        ensures
            b.wf(),
            b.requests == requests,
            b.limiter.capacity == max_concurrent,
            b.limiter.in_flight == 0,
            b.phases@.len() == requests@.len(),
            forall|i: int| 0 <= i < b.phases@.len() ==> b.phases@[i] is Pending,
    {
        let mut phases: Vec<RequestPhase> = Vec::new();
        let mut k: usize = 0;
        while k < requests.len()
            invariant
                k <= requests.len(),
                phases@.len() == k,
                forall|i: int| 0 <= i < k ==> phases@[i] is Pending,
                spec_attempting_count(phases@) == 0,
            decreases requests.len() - k,
        {
            let ghost before = phases@;
            phases.push(RequestPhase::Pending);
            proof {
                assert(phases@.drop_last() =~= before);
            }
            k = k + 1;
        }
        BatchRun { requests, phases, limiter: Limiter::new(max_concurrent) }
    }

    /// The request a task is about to work on.
    pub fn request(&self, i: usize) -> (r: &DownloadRequest)
        requires
            i < self.len(),
        ensures
            *r == self.requests@[i as int],
    {
        &self.requests[i]
    }

    /// Request `i` asks for a permit. Granted exactly when one is free;
    /// when it is not, nothing changes and the task waits.
    pub fn try_begin(&mut self, i: usize) -> (granted: bool)
        requires
            old(self).wf(),
            i < old(self).len(),
            old(self).phases@[i as int] is Pending,
        ensures
            final(self).wf(),
            final(self).requests == old(self).requests,
            final(self)@ == spec_batch_step(old(self)@, BatchEvent::Begin(i)),
            granted <==> old(self).limiter.in_flight < old(self).limiter.capacity,
            final(self).limiter.capacity == old(self).limiter.capacity,
            granted ==> final(self).limiter.in_flight == old(self).limiter.in_flight + 1,
            granted ==> final(self).phases@ == old(self).phases@.update(
                i as int,
                RequestPhase::Attempting,
            ),
            !granted ==> *final(self) == *old(self),
    {
        let granted = self.limiter.try_acquire();
        if granted {
            let slot = &mut self.phases[i];
            *slot = RequestPhase::Attempting;
            proof {
                lemma_attempting_count_update(
                    old(self).phases@,
                    i as int,
                    RequestPhase::Attempting,
                );
            }
        }
        granted
    }

    /// Request `i`'s retry loop concluded: record its outcome and give
    /// the permit back. A finished request never affects its siblings.
    pub fn finish(&mut self, i: usize, outcome: DownloadOutcome)
        requires
            old(self).wf(),
            i < old(self).len(),
            old(self).phases@[i as int] is Attempting,
        ensures
            final(self).wf(),
            final(self).requests == old(self).requests,
            final(self)@ == spec_batch_step(old(self)@, BatchEvent::Finish(i, outcome)),
            final(self).phases@ == old(self).phases@.update(i as int, RequestPhase::Done(outcome)),
            final(self).limiter.capacity == old(self).limiter.capacity,
            final(self).limiter.in_flight == old(self).limiter.in_flight - 1,
    {
        proof {
            lemma_attempting_count_update(
                old(self).phases@,
                i as int,
                RequestPhase::Done(outcome),
            );
            lemma_attempting_count_at_least_one(old(self).phases@, i as int);
        }
        let slot = &mut self.phases[i];
        *slot = RequestPhase::Done(outcome);
        self.limiter.release();
    }

    /// Every request has concluded.
    pub open spec fn complete(self) -> bool {
        forall|i: int| 0 <= i < self.phases@.len() ==> self.phases@[i] is Done
    }

    /// Collect the outcomes, one per request, in submission order.
    pub fn into_outcomes(self) -> (r: Vec<DownloadOutcome>)
        requires
            self.wf(),
            self.complete(),
        ensures
            r@.len() == self.phases@.len(),
            forall|i: int| 0 <= i < r@.len() ==> self.phases@[i] == RequestPhase::Done(#[trigger] r@[i]),
    {
        let ghost original = self.phases@;
        let mut phases = self.phases;
        let mut out: Vec<DownloadOutcome> = Vec::new();
        while phases.len() > 0
            invariant
                out@.len() + phases@.len() == original.len(),
                phases@ =~= original.subrange(out@.len() as int, original.len() as int),
                forall|i: int|
                    0 <= i < out@.len() ==> original[i] == RequestPhase::Done(#[trigger] out@[i]),
                forall|i: int| 0 <= i < original.len() ==> original[i] is Done,
            decreases phases@.len(),
        {
            let phase = phases.remove(0);
            proof {
                assert(phase == original[out@.len() as int]);
            }
            match phase {
                RequestPhase::Done(outcome) => {
                    out.push(outcome);
                },
                _ => {
                    proof {
                        assert(false);
                    }
                },
            }
        }
        out
    }
}

proof fn lemma_attempting_count_at_least_one(phases: Seq<RequestPhase>, i: int)
    requires
        0 <= i < phases.len(),
        phases[i] is Attempting,
    ensures
        spec_attempting_count(phases) >= 1,
    decreases phases.len(),
{
    if i == phases.len() - 1 {
    } else {
        lemma_attempting_count_at_least_one(phases.drop_last(), i);
    }
}

} // verus!
