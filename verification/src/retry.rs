//! The rate-limit-aware retry engine behind every API call.
//!
//! One call owns one [`RetryState`]: an attempt is performed by the caller
//! (the network layer), its classified outcome is handed to
//! [`RetryState::on_attempt`], and the returned step says whether the call
//! is finished, has failed terminally, or must back off and try again.
//! Only a rate-limited response is ever retried; the backoff delay starts at
//! the configured initial value and doubles before every further retry, and
//! at most [`MAX_RETRY_ATTEMPTS`] attempts are performed in all.
//!
//! [`spec_retry_trace`] restates the whole engine as a fold over a sequence
//! of outcomes; the proof functions at the end state the backoff law and the
//! attempt cap over it.

use vstd::prelude::*;
use crate::error::{api_failure, error_detail_of, Error};

verus! {

/// Upper bound on the attempts of one call, the rate-limited ones included.
pub const MAX_RETRY_ATTEMPTS: usize = 5;

/// Default backoff delay before the first retry, in milliseconds.
pub const INITIAL_RETRY_DELAY_MS: u64 = 10_000;

/// Largest admissible initial delay: even after every doubling the delay
/// still fits in a u64.
pub const MAX_INITIAL_RETRY_DELAY_MS: u64 = u64::MAX / 16;

/// 2^k.
pub open spec fn pow2(k: nat) -> nat
    decreases k,
{
    if k == 0 {
        1
    } else {
        2 * pow2((k - 1) as nat)
    }
}

/// The classified result of one attempt, as the network layer observed it.
pub enum AttemptOutcome {
    /// Success status, and the body deserialized into the expected value.
    Success,
    /// Success status, but the body did not deserialize.
    MalformedBody,
    /// Rate-limited (HTTP 429).
    RateLimited,
    /// Any other non-success status, with the raw response body text.
    Failed { status: u16, body: String },
    /// The request produced no usable response: connection failure, timeout,
    /// or an unreadable body.
    ConnectionFailed,
}

/// What the caller must do after handing an outcome to the engine.
pub enum RetryStep {
    /// The call is finished; use the value the successful attempt produced.
    Done,
    /// Sleep for `delay_ms` milliseconds, then perform the next attempt.
    Backoff { delay_ms: u64 },
    /// The call failed terminally.
    Fail(Error),
}

/// The retry loop's state for one call: how many backoffs have been taken
/// and how long the next one would sleep.
pub struct RetryState {
    /// Rate-limited attempts absorbed so far (each one slept once).
    pub backoffs: usize,
    /// Sleep length of the next backoff, in milliseconds.
    pub delay_ms: u64,
    /// The configured initial delay, kept to state the doubling invariant.
    pub initial_delay_ms: u64,
}

impl RetryState {
    /// The engine's invariant: fewer backoffs than the attempt cap, and the
    /// pending delay is the initial delay doubled once per backoff taken.
    pub open spec fn well_formed(self) -> bool {
        &&& self.backoffs < MAX_RETRY_ATTEMPTS
        &&& self.initial_delay_ms <= MAX_INITIAL_RETRY_DELAY_MS
        &&& self.delay_ms == self.initial_delay_ms * pow2(self.backoffs as nat)
    }

    /// A fresh engine for one call.
    pub fn new(initial_delay_ms: u64) -> (s: Self)
        requires
            initial_delay_ms <= MAX_INITIAL_RETRY_DELAY_MS,
        ensures
            s.well_formed(),
            s.backoffs == 0,
            s.delay_ms == initial_delay_ms,
            s.initial_delay_ms == initial_delay_ms,
    {
        proof {
            assert(pow2(0) == 1);
        }
        Self { backoffs: 0, delay_ms: initial_delay_ms, initial_delay_ms }
    }

    /// Digests the outcome of one attempt. Only a rate-limited outcome is
    /// retried, with the current delay, after which the delay doubles; the
    /// rate-limited attempt that reaches the cap, and every other
    /// non-success outcome, fail terminally. `context` prefixes the message
    /// of an API error.
    pub fn on_attempt(&mut self, outcome: &AttemptOutcome, context: &str) -> (step: RetryStep)
        requires
            old(self).well_formed(),
        ensures
            final(self).well_formed(),
            final(self).initial_delay_ms == old(self).initial_delay_ms,
            (outcome is Success ==> step is Done && *final(self) == *old(self)),
            (outcome is MalformedBody ==> (step matches RetryStep::Fail(e)
                && e is DeserializationError) && *final(self) == *old(self)),
            (outcome is ConnectionFailed ==> (step matches RetryStep::Fail(e)
                && e is TransportError) && *final(self) == *old(self)),
            (outcome matches AttemptOutcome::Failed { status, body } ==> (step
                matches RetryStep::Fail(e) && e matches Error::ApiError(s, m) && s == status
                && m@ == context@ + ": "@ + error_detail_of(body@)) && *final(self) == *old(
                self,
            )),
            (outcome is RateLimited && old(self).backoffs + 1 < MAX_RETRY_ATTEMPTS ==> (step
                matches RetryStep::Backoff { delay_ms } && delay_ms == old(self).delay_ms)
                && final(self).backoffs == old(self).backoffs + 1 && final(self).delay_ms == old(
                self,
            ).delay_ms * 2),
            (outcome is RateLimited && old(self).backoffs + 1 == MAX_RETRY_ATTEMPTS ==> (step
                matches RetryStep::Fail(e) && e is MaxRetriesExceeded) && *final(self) == *old(
                self,
            )),
    {
        match outcome {
            AttemptOutcome::Success => RetryStep::Done,
            AttemptOutcome::MalformedBody => RetryStep::Fail(Error::DeserializationError),
            AttemptOutcome::ConnectionFailed => RetryStep::Fail(Error::TransportError),
            AttemptOutcome::Failed { status, body } => RetryStep::Fail(
                api_failure(*status, context, body.as_str()),
            ),
            AttemptOutcome::RateLimited => {
                if self.backoffs + 1 == MAX_RETRY_ATTEMPTS {
                    RetryStep::Fail(Error::MaxRetriesExceeded)
                } else {
                    let current = self.delay_ms;
                    proof {
                        lemma_delay_doubling_fits(
                            self.initial_delay_ms,
                            self.backoffs as nat,
                        );
                    }
                    self.delay_ms = self.delay_ms * 2;
                    self.backoffs = self.backoffs + 1;
                    RetryStep::Backoff { delay_ms: current }
                }
            },
        }
    }
}

/// Doubling a well-formed delay cannot overflow: with fewer doublings than
/// the attempt cap allows, the delay stays within sixteen times the initial
/// value.
proof fn lemma_delay_doubling_fits(initial: u64, backoffs: nat)
    requires
        initial <= MAX_INITIAL_RETRY_DELAY_MS,
        backoffs + 2 <= MAX_RETRY_ATTEMPTS,
    ensures
        initial * pow2(backoffs) * 2 == initial * pow2(backoffs + 1),
        initial * pow2(backoffs + 1) <= u64::MAX,
{
    assert(pow2(backoffs + 1) == 2 * pow2(backoffs));
    lemma_pow2_increases(backoffs + 1, (MAX_RETRY_ATTEMPTS - 1) as nat);
    assert(pow2((MAX_RETRY_ATTEMPTS - 1) as nat) == 16) by {
        reveal_with_fuel(pow2, 5);
    }
    assert(initial * pow2(backoffs) * 2 == initial * (2 * pow2(backoffs)))
        by (nonlinear_arith);
    assert(initial * pow2(backoffs + 1) <= initial * 16) by (nonlinear_arith)
        requires
            pow2(backoffs + 1) <= 16,
    ;
    assert(initial * 16 <= (u64::MAX / 16) * 16) by (nonlinear_arith)
        requires
            initial <= u64::MAX / 16,
    ;
}

/// pow2 is monotone.
proof fn lemma_pow2_increases(a: nat, b: nat)
    requires
        a <= b,
    ensures
        pow2(a) <= pow2(b),
    decreases b,
{
    if a < b {
        lemma_pow2_increases(a, (b - 1) as nat);
        assert(pow2(b) == 2 * pow2((b - 1) as nat));
    }
}

/// Ghost summary of one whole call under the engine: how many attempts were
/// performed, which delays were slept, and how it ended.
pub struct RetryTrace {
    /// Attempts performed before the call ended (or the outcomes ran out).
    pub attempts: int,
    /// The backoff delays slept, in order.
    pub delays: Seq<int>,
    /// How the call ended.
    pub verdict: RetryVerdict,
}

/// How a call under the retry engine ends.
pub enum RetryVerdict {
    /// A successful attempt delivered the value.
    Completed,
    /// A success response whose body did not deserialize.
    MalformedSuccess,
    /// A connection-level failure.
    ConnectionFailure,
    /// A non-success, non-rate-limit response.
    ApiFailure,
    /// Rate limiting persisted through the attempt cap.
    Exhausted,
    /// The given outcomes ran out before the call ended.
    Unresolved,
}

/// The whole retry engine as a fold: starting with `backoffs` backoffs
/// already taken and `delay` pending, feed the attempts' outcomes in order
/// and collect the trace. This mirrors [`RetryState::on_attempt`] step for
/// step.
pub open spec fn spec_retry_trace(backoffs: int, delay: int, outcomes: Seq<AttemptOutcome>)
    -> RetryTrace
    decreases outcomes.len(),
{
    if outcomes.len() == 0 {
        RetryTrace { attempts: 0, delays: Seq::empty(), verdict: RetryVerdict::Unresolved }
    } else {
        match outcomes[0] {
            AttemptOutcome::Success => RetryTrace {
                attempts: 1,
                delays: Seq::empty(),
                verdict: RetryVerdict::Completed,
            },
            AttemptOutcome::MalformedBody => RetryTrace {
                attempts: 1,
                delays: Seq::empty(),
                verdict: RetryVerdict::MalformedSuccess,
            },
            AttemptOutcome::ConnectionFailed => RetryTrace {
                attempts: 1,
                delays: Seq::empty(),
                verdict: RetryVerdict::ConnectionFailure,
            },
            AttemptOutcome::Failed { .. } => RetryTrace {
                attempts: 1,
                delays: Seq::empty(),
                verdict: RetryVerdict::ApiFailure,
            },
            AttemptOutcome::RateLimited => {
                if backoffs + 1 == MAX_RETRY_ATTEMPTS {
                    RetryTrace {
                        attempts: 1,
                        delays: Seq::empty(),
                        verdict: RetryVerdict::Exhausted,
                    }
                } else {
                    let rest = spec_retry_trace(backoffs + 1, delay * 2, outcomes.drop_first());
                    RetryTrace {
                        attempts: 1 + rest.attempts,
                        delays: seq![delay] + rest.delays,
                        verdict: rest.verdict,
                    }
                }
            },
        }
    }
}

/// The summary of one call replayed under the engine: see [`run_retry`].
pub struct RetryReplay {
    /// Attempts performed before the call ended (or the outcomes ran out).
    pub attempts: usize,
    /// The backoff delays slept, in order.
    pub delays: Vec<u64>,
    /// How the call ended: success, a terminal error, or nothing yet when
    /// the outcomes ran out mid-call.
    pub end: Option<Result<(), Error>>,
}

/// The retry loop over outcomes that are already at hand: feeds them to a
/// fresh engine one attempt at a time, exactly as a network driver would,
/// and returns what happened. Its contract ties the executable engine to
/// [`spec_retry_trace`], the model the retry laws are stated over.
pub fn run_retry(initial_delay_ms: u64, outcomes: &Vec<AttemptOutcome>, context: &str) -> (r:
    RetryReplay)
    requires
        initial_delay_ms <= MAX_INITIAL_RETRY_DELAY_MS,
    ensures
        ({
            let t = spec_retry_trace(0, initial_delay_ms as int, outcomes@);
            &&& r.attempts == t.attempts
            &&& r.delays@.len() == t.delays.len()
            &&& (forall|i: int| 0 <= i < t.delays.len() ==> r.delays@[i] == t.delays[i])
            &&& ((r.end matches Some(Ok(_))) <==> t.verdict is Completed)
            &&& ((r.end matches Some(Err(e)) && e is DeserializationError)
                <==> t.verdict is MalformedSuccess)
            &&& ((r.end matches Some(Err(e)) && e is TransportError)
                <==> t.verdict is ConnectionFailure)
            &&& ((r.end matches Some(Err(e)) && e is ApiError) <==> t.verdict is ApiFailure)
            &&& ((r.end matches Some(Err(e)) && e is MaxRetriesExceeded)
                <==> t.verdict is Exhausted)
            &&& ((r.end is None) <==> t.verdict is Unresolved)
        }),
{
    let ghost total = spec_retry_trace(0, initial_delay_ms as int, outcomes@);
    let mut state = RetryState::new(initial_delay_ms);
    let mut delays: Vec<u64> = Vec::new();
    let mut k: usize = 0;
    proof {
        assert(outcomes@.skip(0) =~= outcomes@);
    }
    while k < outcomes.len()
        invariant
            state.well_formed(),
            0 <= k <= outcomes@.len(),
            delays@.len() == k,
            total == spec_retry_trace(0, initial_delay_ms as int, outcomes@),
            ({
                let rest = spec_retry_trace(
                    state.backoffs as int,
                    state.delay_ms as int,
                    outcomes@.skip(k as int),
                );
                &&& total.attempts == k + rest.attempts
                &&& total.delays.len() == delays@.len() + rest.delays.len()
                &&& (forall|i: int| 0 <= i < delays@.len() ==> total.delays[i] == delays@[i])
                &&& (forall|i: int|
                    0 <= i < rest.delays.len() ==> total.delays[delays@.len() + i]
                        == rest.delays[i])
                &&& total.verdict == rest.verdict
            }),
        decreases outcomes@.len() - k,
    {
        let ghost pre = state;
        let ghost rest_pre = spec_retry_trace(
            pre.backoffs as int,
            pre.delay_ms as int,
            outcomes@.skip(k as int),
        );
        proof {
            assert(outcomes@.skip(k as int)[0] == outcomes@[k as int]);
            assert(outcomes@.skip(k as int).drop_first() =~= outcomes@.skip(k + 1));
        }
        let outcome = &outcomes[k];
        let step = state.on_attempt(outcome, context);
        k = k + 1;
        match step {
            RetryStep::Done => {
                return RetryReplay { attempts: k, delays, end: Some(Ok(())) };
            },
            RetryStep::Fail(e) => {
                return RetryReplay { attempts: k, delays, end: Some(Err(e)) };
            },
            RetryStep::Backoff { delay_ms } => {
                proof {
                    let rest_post = spec_retry_trace(
                        state.backoffs as int,
                        state.delay_ms as int,
                        outcomes@.skip(k as int),
                    );
                    assert(rest_pre.delays == seq![pre.delay_ms as int] + rest_post.delays);
                    assert(rest_pre.delays[0] == pre.delay_ms as int);
                    assert forall|i: int| 0 <= i < rest_post.delays.len() implies total.delays[
                        delays@.len() + 1 + i
                    ] == rest_post.delays[i] by {
                        assert(total.delays[delays@.len() + (1 + i)] == rest_pre.delays[1 + i]);
                        assert(rest_pre.delays[1 + i] == rest_post.delays[i]);
                    }
                }
                delays.push(delay_ms);
            },
        }
    }
    proof {
        assert(outcomes@.skip(k as int) =~= Seq::<AttemptOutcome>::empty());
    }
    RetryReplay { attempts: k, delays, end: None }
}

/// `k` rate-limited outcomes in a row.
pub open spec fn rate_limited_run(k: int) -> Seq<AttemptOutcome> {
    Seq::new(k as nat, |i: int| AttemptOutcome::RateLimited)
}

/// Law: when the first `k` responses of a call are rate-limited (`k` below
/// the attempt cap) and the next one succeeds, the call completes after
/// exactly `k + 1` attempts, and the delay slept before retry `i` (counted
/// from zero) is the initial delay times `2^i`.
pub proof fn lemma_backoff_doubles_until_success(initial_delay: int, k: int)
    requires
        0 <= k < MAX_RETRY_ATTEMPTS,
    ensures
        ({
            let t = spec_retry_trace(
                0,
                initial_delay,
                rate_limited_run(k).push(AttemptOutcome::Success),
            );
            &&& t.verdict is Completed
            &&& t.attempts == k + 1
            &&& t.delays.len() == k
            &&& forall|i: int| 0 <= i < k ==> t.delays[i] == initial_delay * pow2(i as nat)
        }),
{
    lemma_rate_limited_then_success(0, initial_delay, k);
}

/// Law: when every response is rate-limited, the call ends exhausted after
/// exactly the attempt cap of attempts — whatever outcomes would follow the
/// cap are never looked at, so no further attempt is performed.
pub proof fn lemma_attempt_cap(initial_delay: int, later: Seq<AttemptOutcome>)
    ensures
        ({
            let t = spec_retry_trace(
                0,
                initial_delay,
                rate_limited_run(MAX_RETRY_ATTEMPTS as int) + later,
            );
            &&& t.verdict is Exhausted
            &&& t.attempts == MAX_RETRY_ATTEMPTS
            &&& t.delays.len() == MAX_RETRY_ATTEMPTS - 1
        }),
{
    lemma_rate_limited_exhausts(0, initial_delay, later);
}

/// Generalisation of the backoff law over a partially advanced engine.
proof fn lemma_rate_limited_then_success(backoffs: int, delay: int, k: int)
    requires
        0 <= k,
        0 <= backoffs,
        backoffs + k < MAX_RETRY_ATTEMPTS,
    ensures
        ({
            let t = spec_retry_trace(
                backoffs,
                delay,
                rate_limited_run(k).push(AttemptOutcome::Success),
            );
            &&& t.verdict is Completed
            &&& t.attempts == k + 1
            &&& t.delays.len() == k
            &&& forall|i: int| 0 <= i < k ==> t.delays[i] == delay * pow2(i as nat)
        }),
    decreases k,
{
    let outcomes = rate_limited_run(k).push(AttemptOutcome::Success);
    if k == 0 {
        assert(outcomes[0] is Success);
    } else {
        assert(outcomes[0] is RateLimited);
        lemma_rate_limited_then_success(backoffs + 1, delay * 2, k - 1);
        let shorter = rate_limited_run(k - 1).push(AttemptOutcome::Success);
        assert(outcomes.drop_first() =~= shorter);
        let rest = spec_retry_trace(backoffs + 1, delay * 2, shorter);
        let t = spec_retry_trace(backoffs, delay, outcomes);
        assert(backoffs + 1 != MAX_RETRY_ATTEMPTS);
        assert(t == RetryTrace {
            attempts: 1 + rest.attempts,
            delays: seq![delay] + rest.delays,
            verdict: rest.verdict,
        });
        assert forall|i: int| 0 <= i < k implies t.delays[i] == delay * pow2(i as nat) by {
            if i == 0 {
                assert(t.delays[0] == (seq![delay] + rest.delays)[0]);
                assert(t.delays[0] == delay);
                assert(pow2(0) == 1);
            } else {
                assert(t.delays[i] == (seq![delay] + rest.delays)[i]);
                assert(t.delays[i] == rest.delays[i - 1]);
                assert(rest.delays[i - 1] == (delay * 2) * pow2((i - 1) as nat));
                assert((delay * 2) * pow2((i - 1) as nat) == delay * (2 * pow2((i - 1) as nat)))
                    by (nonlinear_arith);
                assert(pow2(i as nat) == 2 * pow2((i - 1) as nat));
            }
        }
    }
}

/// Generalisation of the attempt-cap law over a partially advanced engine.
proof fn lemma_rate_limited_exhausts(backoffs: int, delay: int, later: Seq<AttemptOutcome>)
    requires
        0 <= backoffs < MAX_RETRY_ATTEMPTS,
    ensures
        ({
            let t = spec_retry_trace(
                backoffs,
                delay,
                rate_limited_run(MAX_RETRY_ATTEMPTS - backoffs) + later,
            );
            &&& t.verdict is Exhausted
            &&& t.attempts == MAX_RETRY_ATTEMPTS - backoffs
            &&& t.delays.len() == MAX_RETRY_ATTEMPTS - backoffs - 1
        }),
    decreases MAX_RETRY_ATTEMPTS - backoffs,
{
    let outcomes = rate_limited_run(MAX_RETRY_ATTEMPTS - backoffs) + later;
    assert(outcomes[0] is RateLimited);
    if backoffs + 1 < MAX_RETRY_ATTEMPTS {
        lemma_rate_limited_exhausts(backoffs + 1, delay * 2, later);
        assert(outcomes.drop_first() =~= rate_limited_run(MAX_RETRY_ATTEMPTS - backoffs - 1)
            + later);
    }
}

} // verus!
