//! The retry policy: a fixed-count loop around the transfer executor.
//!
//! The executable machine records one attempt's result at a time and
//! tells the caller whether to sleep and try again; the spec-level step
//! and run functions state what any sequence of attempt results does to
//! the machine, and the public lemmas prove the policy's laws over them.

use vstd::prelude::*;

use crate::error::DownloadError;

verus! {

/// The result of one attempt of the transfer executor.
pub type AttemptResult = Result<(), DownloadError>;

/// The state of one request's retry loop.
#[derive(Debug)]
pub struct RetryState {
    /// Total attempts allowed. At least 1; 1 means no retry.
    pub max_attempts: u32,
    /// Fixed delay between two attempts, in milliseconds.
    pub delay_ms: u64,
    /// Attempts recorded so far.
    pub attempts_made: u32,
    /// The terminal result, once the loop has concluded: the first
    /// success, or the last error after `max_attempts` failures.
    pub outcome: Option<AttemptResult>,
}

impl RetryState {
    /// The loop concluded: a success arrived or the count is exhausted.
    pub open spec fn finished(self) -> bool {
        self.outcome is Some
    }

    pub open spec fn wf(self) -> bool {
        &&& self.max_attempts >= 1
        &&& self.attempts_made <= self.max_attempts
        &&& (!self.finished() ==> self.attempts_made < self.max_attempts)
    }
}

/// A fresh retry loop before its first attempt.
pub open spec fn spec_retry_start(max_attempts: u32, delay_ms: u64) -> RetryState {
    RetryState { max_attempts, delay_ms, attempts_made: 0, outcome: None }
}

/// How one attempt's result changes the loop's state. A concluded loop
/// absorbs further events unchanged: no attempt follows the outcome.
pub open spec fn spec_retry_step(s: RetryState, r: AttemptResult) -> RetryState {
    if s.finished() {
        s
    } else if r is Ok || s.attempts_made + 1 >= s.max_attempts {
        RetryState {
            attempts_made: (s.attempts_made + 1) as u32,
            outcome: Some(r),
            ..s
        }
    } else {
        RetryState { attempts_made: (s.attempts_made + 1) as u32, ..s }
    }
}

/// Whether the loop sleeps for `delay_ms` after this attempt: only when
/// the attempt failed and attempts remain.
pub open spec fn spec_retry_sleeps(s: RetryState, r: AttemptResult) -> bool {
    !s.finished() && r is Err && s.attempts_made + 1 < s.max_attempts
}

/// The state after a whole sequence of attempt results.
pub open spec fn spec_retry_run(s: RetryState, rs: Seq<AttemptResult>) -> RetryState
    decreases rs.len(),
{
    if rs.len() == 0 {
        s
    } else {
        spec_retry_run(spec_retry_step(s, rs[0]), rs.drop_first())
    }
}

/// How many inter-attempt delays a sequence of results causes.
pub open spec fn spec_retry_sleep_count(s: RetryState, rs: Seq<AttemptResult>) -> nat
    decreases rs.len(),
{
    if rs.len() == 0 {
        0
    } else {
        (if spec_retry_sleeps(s, rs[0]) {
            1nat
        } else {
            0nat
        }) + spec_retry_sleep_count(spec_retry_step(s, rs[0]), rs.drop_first())
    }
}

impl RetryState {
    /// Start the retry loop for one request.
    pub fn start(max_attempts: u32, delay_ms: u64) -> (s: Self)
        requires
            max_attempts >= 1,
        ensures
            s == spec_retry_start(max_attempts, delay_ms),
            s.wf(),
            !s.finished(),
    {
        RetryState { max_attempts, delay_ms, attempts_made: 0, outcome: None }
    }

    /// Record one attempt's result. Returns true exactly when the caller
    /// must sleep for `delay_ms` and attempt again; false means the loop
    /// has concluded and `outcome` holds the terminal result.
    pub fn record_attempt(&mut self, result: AttemptResult) -> (sleep: bool)
        requires
            old(self).wf(),
            !old(self).finished(),
        ensures
            *final(self) == spec_retry_step(*old(self), result),
            final(self).wf(),
            sleep == spec_retry_sleeps(*old(self), result),
            sleep <==> !final(self).finished(),
            final(self).attempts_made == old(self).attempts_made + 1,
            final(self).max_attempts == old(self).max_attempts,
            final(self).delay_ms == old(self).delay_ms,
            result is Ok ==> final(self).outcome == Some(result),
            result is Err && old(self).attempts_made + 1 == old(self).max_attempts
                ==> final(self).outcome == Some(result),
    {
        let concluded = match &result {
            Ok(_) => true,
            Err(_) => self.attempts_made + 1 >= self.max_attempts,
        };
        self.attempts_made = self.attempts_made + 1;
        if concluded {
            self.outcome = Some(result);
            false
        } else {
            true
        }
    }

    /// Hand the terminal result out once the loop has concluded.
    pub fn into_outcome(self) -> (r: AttemptResult)
        requires
            self.finished(),
        ensures
            Some(r) == self.outcome,
    {
        match self.outcome {
            Some(r) => r,
            None => {
                proof {
                    assert(false);
                }
                Ok(())
            },
        }
    }
}

/// Running any block of failing attempts that fits in the remaining
/// budget: every attempt is counted, the loop concludes exactly when the
/// budget is exhausted (with the last error as outcome), and it sleeps
/// after every failure but a concluding one.
proof fn lemma_retry_run_all_errors(s: RetryState, rs: Seq<AttemptResult>)
    requires
        s.wf(),
        !s.finished(),
        s.attempts_made + rs.len() <= s.max_attempts,
        forall|i: int| 0 <= i < rs.len() ==> rs[i] is Err,
    ensures
        spec_retry_run(s, rs).max_attempts == s.max_attempts,
        spec_retry_run(s, rs).delay_ms == s.delay_ms,
        spec_retry_run(s, rs).attempts_made == s.attempts_made + rs.len(),
        spec_retry_run(s, rs).wf(),
        s.attempts_made + rs.len() < s.max_attempts ==> !spec_retry_run(s, rs).finished(),
        s.attempts_made + rs.len() == s.max_attempts ==> rs.len() > 0 && spec_retry_run(
            s,
            rs,
        ).outcome == Some(rs.last()),
        spec_retry_sleep_count(s, rs) == if s.attempts_made + rs.len() == s.max_attempts {
            rs.len() - 1
        } else {
            rs.len() as int
        },
    decreases rs.len(),
{
    if rs.len() > 0 {
        let s1 = spec_retry_step(s, rs[0]);
        if s.attempts_made + 1 < s.max_attempts {
            lemma_retry_run_all_errors(s1, rs.drop_first());
            if rs.len() > 1 {
                assert(rs.drop_first().last() == rs.last());
            }
        } else {
            assert(rs.len() == 1);
            assert(rs.drop_first().len() == 0);
            assert(spec_retry_run(s1, rs.drop_first()) == s1);
            assert(spec_retry_sleep_count(s1, rs.drop_first()) == 0);
        }
    }
}

/// Law: when the backend fails the first `max_attempts - 1` times and
/// succeeds on the last, the loop concludes with that success, and
/// exactly `max_attempts` attempts were made.
pub proof fn lemma_retry_succeeds_on_final_attempt(
    max_attempts: u32,
    delay_ms: u64,
    rs: Seq<AttemptResult>,
)
    requires
        max_attempts >= 1,
        rs.len() == max_attempts,
        forall|i: int| 0 <= i < rs.len() - 1 ==> rs[i] is Err,
        rs.last() is Ok,
    ensures
        spec_retry_run(spec_retry_start(max_attempts, delay_ms), rs).outcome == Some(rs.last()),
        spec_retry_run(spec_retry_start(max_attempts, delay_ms), rs).attempts_made == max_attempts,
    decreases rs.len(),
{
    let s0 = spec_retry_start(max_attempts, delay_ms);
    let single = seq![rs.last()];
    lemma_retry_run_split(s0, rs.drop_last(), single);
    assert(rs.drop_last() + single =~= rs);
    assert(forall|i: int| 0 <= i < rs.len() - 1 ==> rs.drop_last()[i] == rs[i]);
    lemma_retry_run_all_errors(s0, rs.drop_last());
    let s1 = spec_retry_run(s0, rs.drop_last());
    assert(single.drop_first() =~= Seq::<AttemptResult>::empty());
    assert(spec_retry_run(spec_retry_step(s1, single[0]), single.drop_first())
        == spec_retry_step(s1, single[0]));
    assert(spec_retry_run(s1, single) == spec_retry_step(s1, rs.last()));
}

/// Law: when the backend fails every one of `max_attempts` attempts, the
/// loop concludes with the last attempt's error, after exactly
/// `max_attempts` attempts, and a concluded loop absorbs any further
/// event unchanged: no attempt occurs afterward.
pub proof fn lemma_retry_exhausts(max_attempts: u32, delay_ms: u64, rs: Seq<AttemptResult>)
    requires
        max_attempts >= 1,
        rs.len() == max_attempts,
        forall|i: int| 0 <= i < rs.len() ==> rs[i] is Err,
    ensures
        spec_retry_run(spec_retry_start(max_attempts, delay_ms), rs).outcome == Some(rs.last()),
        spec_retry_run(spec_retry_start(max_attempts, delay_ms), rs).attempts_made == max_attempts,
        forall|r: AttemptResult|
            spec_retry_step(spec_retry_run(spec_retry_start(max_attempts, delay_ms), rs), r)
                == spec_retry_run(spec_retry_start(max_attempts, delay_ms), rs),
{
    lemma_retry_run_all_errors(spec_retry_start(max_attempts, delay_ms), rs);
}

/// Law: a fully failing request sleeps exactly `max_attempts - 1` times,
/// so with a delay of `delay_ms` between attempts its elapsed wall time
/// is at least `(max_attempts - 1) * delay_ms` of requested sleep.
pub proof fn lemma_retry_total_delay(max_attempts: u32, delay_ms: u64, rs: Seq<AttemptResult>)
    requires
        max_attempts >= 1,
        rs.len() == max_attempts,
        forall|i: int| 0 <= i < rs.len() ==> rs[i] is Err,
    ensures
        spec_retry_sleep_count(spec_retry_start(max_attempts, delay_ms), rs) == max_attempts - 1,
        spec_retry_sleep_count(spec_retry_start(max_attempts, delay_ms), rs) * delay_ms == (
        max_attempts - 1) * delay_ms,
{
    lemma_retry_run_all_errors(spec_retry_start(max_attempts, delay_ms), rs);
}

/// Running a concatenation of result sequences runs one after the other.
proof fn lemma_retry_run_split(s: RetryState, a: Seq<AttemptResult>, b: Seq<AttemptResult>)
    ensures
        spec_retry_run(s, a + b) == spec_retry_run(spec_retry_run(s, a), b),
    decreases a.len(),
{
    if a.len() == 0 {
        assert(a + b =~= b);
    } else {
        assert((a + b)[0] == a[0]);
        assert((a + b).drop_first() =~= a.drop_first() + b);
        lemma_retry_run_split(spec_retry_step(s, a[0]), a.drop_first(), b);
    }
}

} // verus!
