//! Posting one batch: what an attempt's outcome means, and when the batch is
//! tried again.
//!
//! Any 2xx commits the batch. 429, 5xx and transport errors are tried again,
//! `max_retries` times, with doubling backoff. Any other status fails the batch
//! at once: the collector refused it, and a retry cannot fix that.

use crate::config::{ConfigView, HttpSinkConfig};
use crate::protocol::{AuditError, AuditErrorView};
use crate::text::join;
use vstd::prelude::*;

verus! {

/// What came of one attempt to post a batch.
#[derive(Debug)]
pub enum Outcome {
    /// The collector answered with this status code.
    Status(u16),
    /// No answer came. `detail` says why.
    Failed { timed_out: bool, detail: String },
}

/// The mathematical content of an [`Outcome`].
pub enum OutcomeView {
    Status(u16),
    Failed { timed_out: bool, detail: Seq<char> },
}

impl View for Outcome {
    type V = OutcomeView;

    open spec fn view(&self) -> OutcomeView {
        match *self {
            Outcome::Status(code) => OutcomeView::Status(code),
            Outcome::Failed { timed_out, detail } => OutcomeView::Failed {
                timed_out,
                detail: detail@,
            },
        }
    }
}

/// A status code with its reason phrase, as `http::StatusCode` displays it.
pub uninterp spec fn status_text(code: u16) -> Seq<char>;

/// Calls `reqwest::StatusCode::from_u16` and displays the status. Claims that
/// the text is a function of the code alone.
#[verifier::external_body]
fn show_status(code: u16) -> (text: String)
    requires
        100 <= code <= 999,
    ensures
        text@ == status_text(code),
{
    reqwest::StatusCode::from_u16(code).unwrap().to_string()
}

impl OutcomeView {
    /// Status codes have three digits.
    pub open spec fn well_formed(self) -> bool {
        self matches OutcomeView::Status(code) ==> 100 <= code <= 999
    }

    /// The collector committed the batch.
    pub open spec fn committed(self) -> bool {
        self matches OutcomeView::Status(code) && 200 <= code <= 299
    }

    /// A further attempt may fare better.
    pub open spec fn retryable(self) -> bool {
        match self {
            OutcomeView::Status(code) => code == 429 || 500 <= code <= 599,
            OutcomeView::Failed { .. } => true,
        }
    }

    /// The error that an uncommitted attempt stands for. Of an answer, only the
    /// status is told.
    pub open spec fn error(self) -> AuditErrorView {
        match self {
            OutcomeView::Status(code) => if code == 429 {
                AuditErrorView::Throttled
            } else {
                AuditErrorView::WriteFailed {
                    reason: "collector returned HTTP "@ + status_text(code),
                }
            },
            OutcomeView::Failed { timed_out, detail } => if timed_out {
                AuditErrorView::Timeout
            } else {
                AuditErrorView::WriteFailed { reason: "collector unreachable: "@ + detail }
            },
        }
    }

    /// What the waiters of the batch are told if this attempt was the last.
    pub open spec fn verdict(self) -> Result<(), AuditErrorView> {
        if self.committed() {
            Ok(())
        } else {
            Err(self.error())
        }
    }
}

/// What to do after an attempt.
#[derive(Debug)]
pub enum PostStep {
    /// The batch is settled.
    Done(Result<(), AuditError>),
    /// Try again after this many milliseconds.
    RetryAfter(u64),
}

/// The mathematical content of a [`PostStep`].
pub enum PostStepView {
    Done(Result<(), AuditErrorView>),
    RetryAfter(u64),
}

impl View for PostStep {
    type V = PostStepView;

    open spec fn view(&self) -> PostStepView {
        match *self {
            PostStep::Done(answer) => PostStepView::Done(crate::protocol::unit_answer(answer)),
            PostStep::RetryAfter(ms) => PostStepView::RetryAfter(ms),
        }
    }
}

/// How far the posting of one batch has come.
#[derive(Debug, Clone, Copy)]
pub struct PostBatch {
    /// Retries made so far.
    pub attempt: u32,
    /// Retries allowed.
    pub max_retries: u32,
    /// The next backoff.
    pub backoff_ms: u64,
}

/// `ms` doubled, within the range of the type.
pub open spec fn doubled(ms: u64) -> u64 {
    if 2 * ms > u64::MAX {
        u64::MAX
    } else {
        (2 * ms) as u64
    }
}

/// Before the first attempt.
pub open spec fn posting_begun(cfg: ConfigView) -> PostBatch {
    PostBatch { attempt: 0, max_retries: cfg.max_retries, backoff_ms: cfg.retry_backoff_ms }
}

impl PostBatch {
    /// There is no retry beyond those allowed.
    pub open spec fn well_formed(self) -> bool {
        self.attempt <= self.max_retries
    }

    /// The next attempt is the last one.
    pub open spec fn exhausted(self) -> bool {
        self.attempt >= self.max_retries
    }

    /// The state once another attempt is due.
    pub open spec fn retried(self) -> PostBatch {
        PostBatch {
            attempt: (self.attempt + 1) as u32,
            max_retries: self.max_retries,
            backoff_ms: doubled(self.backoff_ms),
        }
    }

    /// The state after an attempt with this outcome, and what to do next.
    pub open spec fn after(self, outcome: OutcomeView) -> (PostBatch, PostStepView) {
        if outcome.retryable() && !self.exhausted() {
            (self.retried(), PostStepView::RetryAfter(self.backoff_ms))
        } else {
            (self, PostStepView::Done(outcome.verdict()))
        }
    }

    /// Starts posting a batch under `cfg`.
    pub fn begin(cfg: &HttpSinkConfig) -> (state: PostBatch)
        ensures
            state == posting_begun(cfg@),
            state.well_formed(),
            state.attempt == 0,
            state.max_retries == cfg.max_retries,
            state.backoff_ms == cfg.retry_backoff_ms,
    {
        PostBatch { attempt: 0, max_retries: cfg.max_retries, backoff_ms: cfg.retry_backoff_ms }
    }

    /// Takes the outcome of an attempt and decides what to do next.
    pub fn conclude(&mut self, outcome: &Outcome) -> (step: PostStep)
        requires
            outcome@.well_formed(),
        ensures
            (*final(self), step@) == old(self).after(outcome@),
            old(self).well_formed() ==> final(self).well_formed(),
            step matches PostStep::Done(Ok(_)) <==> (*outcome matches Outcome::Status(code) && 200
                <= code <= 299),
            step is RetryAfter <==> old(self).attempt < old(self).max_retries && match *outcome {
                Outcome::Status(code) => code == 429 || 500 <= code <= 599,
                Outcome::Failed { .. } => true,
            },
            step matches PostStep::RetryAfter(ms) ==> {
                &&& ms == old(self).backoff_ms
                &&& final(self).attempt == old(self).attempt + 1
                &&& final(self).max_retries == old(self).max_retries
                &&& final(self).backoff_ms == (if 2 * ms <= u64::MAX {
                    2 * ms
                } else {
                    u64::MAX as int
                })
            },
            step is Done ==> *final(self) == *old(self),
            step matches PostStep::Done(Err(error)) ==> match *outcome {
                Outcome::Status(code) => if code == 429 {
                    error is Throttled
                } else {
                    error matches AuditError::WriteFailed { reason } && reason@
                        == "collector returned HTTP "@ + status_text(code)
                },
                Outcome::Failed { timed_out, detail } => if timed_out {
                    error is Timeout
                } else {
                    error matches AuditError::WriteFailed { reason } && reason@
                        == "collector unreachable: "@ + detail@
                },
            },
    {
        let (again, error): (bool, AuditError) = match outcome {
            Outcome::Status(code) => {
                let code: u16 = *code;
                if 200 <= code && code <= 299 {
                    return PostStep::Done(Ok(()));
                }
                if code == 429 {
                    (true, AuditError::Throttled)
                } else {
                    let text = show_status(code);
                    (
                        500 <= code && code <= 599,
                        AuditError::WriteFailed {
                            reason: join("collector returned HTTP ", text.as_str()),
                        },
                    )
                }
            },
            Outcome::Failed { timed_out, detail } => if *timed_out {
                (true, AuditError::Timeout)
            } else {
                (
                    true,
                    AuditError::WriteFailed {
                        reason: join("collector unreachable: ", detail.as_str()),
                    },
                )
            },
        };
        if again && self.attempt < self.max_retries {
            let wait: u64 = self.backoff_ms;
            self.attempt = self.attempt + 1;
            self.backoff_ms = wait.saturating_add(wait);
            PostStep::RetryAfter(wait)
        } else {
            PostStep::Done(Err(error))
        }
    }
}

/// The backoff before retry `k`, counted from 0: the first one doubled `k`
/// times, within the range of the type.
pub open spec fn backoff(first_ms: u64, k: nat) -> u64 {
    let ms = first_ms * vstd::arithmetic::power2::pow2(k);
    if ms > u64::MAX {
        u64::MAX
    } else {
        ms as u64
    }
}

/// What the waiters are told after these outcomes, one for each attempt made
/// from `state` on; nothing if the batch is not settled yet. Outcomes behind the
/// attempt that settled the batch are never asked for.
pub open spec fn posted(state: PostBatch, outcomes: Seq<OutcomeView>) -> Option<
    Result<(), AuditErrorView>,
>
    decreases outcomes.len(),
{
    if outcomes.len() == 0 {
        None
    } else {
        match state.after(outcomes[0]) {
            (_, PostStepView::Done(answer)) => Some(answer),
            (next, PostStepView::RetryAfter(_)) => posted(next, outcomes.drop_first()),
        }
    }
}

/// How many of the outcomes are asked for.
pub open spec fn attempts(state: PostBatch, outcomes: Seq<OutcomeView>) -> nat
    decreases outcomes.len(),
{
    if outcomes.len() == 0 {
        0
    } else {
        match state.after(outcomes[0]) {
            (_, PostStepView::Done(_)) => 1,
            (next, PostStepView::RetryAfter(_)) => 1 + attempts(next, outcomes.drop_first()),
        }
    }
}

/// The waits between the attempts, in milliseconds.
pub open spec fn waits(state: PostBatch, outcomes: Seq<OutcomeView>) -> Seq<u64>
    decreases outcomes.len(),
{
    if outcomes.len() == 0 {
        Seq::empty()
    } else {
        match state.after(outcomes[0]) {
            (_, PostStepView::Done(_)) => Seq::empty(),
            (next, PostStepView::RetryAfter(ms)) => seq![ms] + waits(
                next,
                outcomes.drop_first(),
            ),
        }
    }
}

/// Attempt `i` settles the batch: every attempt before it may be tried again and
/// leaves a retry, and this one may not or leaves none.
pub open spec fn settled_by(max_retries: u32, outcomes: Seq<OutcomeView>, i: int) -> bool {
    &&& 0 <= i < outcomes.len()
    &&& i <= max_retries
    &&& forall|j: int| 0 <= j < i ==> (#[trigger] outcomes[j]).retryable()
    &&& i == max_retries || !outcomes[i].retryable()
}

/// The sum of the backoffs before the first `n` retries.
pub open spec fn total_backoff(first_ms: u64, n: nat) -> nat
    decreases n,
{
    if n == 0 {
        0
    } else {
        total_backoff(first_ms, (n - 1) as nat) + backoff(first_ms, (n - 1) as nat) as nat
    }
}

/// The sum of some durations.
pub open spec fn total(durations: Seq<nat>) -> nat
    decreases durations.len(),
{
    if durations.len() == 0 {
        0
    } else {
        total(durations.drop_last()) + durations.last()
    }
}

/// The waits as durations.
pub open spec fn wait_times(state: PostBatch, outcomes: Seq<OutcomeView>) -> Seq<nat> {
    waits(state, outcomes).map_values(|ms: u64| ms as nat)
}

/// A batch whose attempt `i` settles it is answered by that attempt, after `i`
/// waits.
proof fn lemma_settled(state: PostBatch, outcomes: Seq<OutcomeView>, i: int)
    requires
        state.well_formed(),
        settled_by((state.max_retries - state.attempt) as u32, outcomes, i),
    ensures
        posted(state, outcomes) == Some(outcomes[i].verdict()),
        attempts(state, outcomes) == i + 1,
        waits(state, outcomes).len() == i,
    decreases i,
{
    if i > 0 {
        assert(outcomes[0].retryable());
        let rest = outcomes.drop_first();
        assert(rest[i - 1] == outcomes[i]);
        assert forall|j: int| 0 <= j < i - 1 implies (#[trigger] rest[j]).retryable() by {
            assert(rest[j] == outcomes[j + 1]);
        }
        lemma_settled(state.retried(), rest, i - 1);
    }
}

/// While every attempt may be tried again and leaves a retry, there is no
/// answer, and each attempt is followed by a wait.
proof fn lemma_unsettled(state: PostBatch, outcomes: Seq<OutcomeView>)
    requires
        state.well_formed(),
        outcomes.len() <= state.max_retries - state.attempt,
        forall|j: int| 0 <= j < outcomes.len() ==> (#[trigger] outcomes[j]).retryable(),
    ensures
        posted(state, outcomes) is None,
        attempts(state, outcomes) == outcomes.len(),
        waits(state, outcomes).len() == outcomes.len(),
    decreases outcomes.len(),
{
    if outcomes.len() > 0 {
        assert(outcomes[0].retryable());
        let rest = outcomes.drop_first();
        assert forall|j: int| 0 <= j < rest.len() implies (#[trigger] rest[j]).retryable() by {
            assert(rest[j] == outcomes[j + 1]);
        }
        lemma_unsettled(state.retried(), rest);
    }
}

/// Some attempt settles the batch, or none of them does.
proof fn lemma_settled_or_not(max_retries: u32, outcomes: Seq<OutcomeView>) -> (i: int)
    ensures
        settled_by(max_retries, outcomes, i) || (outcomes.len() <= max_retries && forall|j: int|
            0 <= j < outcomes.len() ==> (#[trigger] outcomes[j]).retryable()),
    decreases outcomes.len(),
{
    if outcomes.len() == 0 {
        0
    } else {
        let shorter = outcomes.drop_last();
        let i = lemma_settled_or_not(max_retries, shorter);
        if settled_by(max_retries, shorter, i) {
            assert forall|j: int| 0 <= j < i implies (#[trigger] outcomes[j]).retryable() by {
                assert(outcomes[j] == shorter[j]);
            }
            i
        } else {
            assert forall|j: int| 0 <= j < outcomes.len() - 1 implies (
            #[trigger] outcomes[j]).retryable() by {
                assert(outcomes[j] == shorter[j]);
            }
            outcomes.len() - 1
        }
    }
}

/// The `k`-th wait is the state's backoff doubled `k` times.
proof fn lemma_wait(state: PostBatch, outcomes: Seq<OutcomeView>, k: nat)
    requires
        state.well_formed(),
        k < waits(state, outcomes).len(),
    ensures
        waits(state, outcomes)[k as int] == backoff(state.backoff_ms, k),
    decreases k,
{
    if k == 0 {
        vstd::arithmetic::power2::lemma2_to64();
    } else {
        let shorter = (k - 1) as nat;
        lemma_wait(state.retried(), outcomes.drop_first(), shorter);
        lemma_backoff_of_doubled(state.backoff_ms, shorter);
    }
}

/// Doubling first and then `k` times is doubling one time more.
proof fn lemma_backoff_of_doubled(ms: u64, k: nat)
    ensures
        backoff(doubled(ms), k) == backoff(ms, k + 1),
{
    let p = vstd::arithmetic::power2::pow2(k);
    vstd::arithmetic::power2::lemma_pow2_unfold(k + 1);
    vstd::arithmetic::power2::lemma_pow2_pos(k);
    assert(ms * (2 * p) == (2 * ms) * p) by (nonlinear_arith);
    if 2 * ms > u64::MAX {
        assert((2 * ms) * p >= 2 * ms) by (nonlinear_arith)
            requires
                p >= 1,
                ms >= 0,
        ;
        assert(u64::MAX * p >= u64::MAX) by (nonlinear_arith)
            requires
                p >= 1,
        ;
    }
}

/// The waits add up to the backoffs before as many retries.
proof fn lemma_waits_total(state: PostBatch, outcomes: Seq<OutcomeView>, n: nat)
    requires
        state.well_formed(),
        n <= waits(state, outcomes).len(),
    ensures
        total(wait_times(state, outcomes).take(n as int)) == total_backoff(state.backoff_ms, n),
    decreases n,
{
    let times = wait_times(state, outcomes);
    if n > 0 {
        let shorter = (n - 1) as nat;
        lemma_waits_total(state, outcomes, shorter);
        lemma_wait(state, outcomes, shorter);
        assert(times.take(n as int).drop_last() == times.take(shorter as int));
    }
}

/// More retries never take less backoff.
proof fn lemma_total_backoff_grows(first_ms: u64, m: nat, n: nat)
    requires
        m <= n,
    ensures
        total_backoff(first_ms, m) <= total_backoff(first_ms, n),
    decreases n - m,
{
    if m < n {
        lemma_total_backoff_grows(first_ms, m, (n - 1) as nat);
    }
}

/// Durations of at most `bound` add up to at most `bound` times their number.
proof fn lemma_total_bounded(durations: Seq<nat>, bound: nat)
    requires
        forall|i: int| 0 <= i < durations.len() ==> #[trigger] durations[i] <= bound,
    ensures
        total(durations) <= durations.len() * bound,
    decreases durations.len(),
{
    if durations.len() > 0 {
        let shorter = durations.drop_last();
        assert forall|i: int| 0 <= i < shorter.len() implies #[trigger] shorter[i] <= bound by {
            assert(shorter[i] == durations[i]);
        }
        lemma_total_bounded(shorter, bound);
        assert(durations.last() == durations[durations.len() - 1]);
        let n = shorter.len();
        assert((n + 1) * bound == n * bound + bound) by (nonlinear_arith);
    }
}

/// A batch is answered by the first attempt that is not to be tried again, or by
/// the last one allowed, with a wait between each attempt and the next; the
/// collector is not asked after it.
pub proof fn law_first_final_attempt_answers(cfg: ConfigView, outcomes: Seq<OutcomeView>, i: int)
    requires
        settled_by(cfg.max_retries, outcomes, i),
    ensures
        posted(posting_begun(cfg), outcomes) == Some(outcomes[i].verdict()),
        attempts(posting_begun(cfg), outcomes) == i + 1,
        waits(posting_begun(cfg), outcomes).len() == i,
{
    lemma_settled(posting_begun(cfg), outcomes, i);
}

/// A batch stays unanswered exactly while every attempt may be tried again and
/// leaves a retry.
pub proof fn law_unanswered_while_retrying(cfg: ConfigView, outcomes: Seq<OutcomeView>)
    ensures
        posted(posting_begun(cfg), outcomes) is None <==> outcomes.len() <= cfg.max_retries && (
        forall|j: int| 0 <= j < outcomes.len() ==> (#[trigger] outcomes[j]).retryable()),
{
    let i = lemma_settled_or_not(cfg.max_retries, outcomes);
    if settled_by(cfg.max_retries, outcomes, i) {
        lemma_settled(posting_begun(cfg), outcomes, i);
        if outcomes.len() <= cfg.max_retries {
            assert(!outcomes[i].retryable());
        }
    } else {
        lemma_unsettled(posting_begun(cfg), outcomes);
    }
}

/// A batch is reported committed exactly if the collector answered 2xx to an
/// attempt that it came to, with only attempts to be tried again before it.
pub proof fn law_committed_only_by_2xx(cfg: ConfigView, outcomes: Seq<OutcomeView>)
    ensures
        posted(posting_begun(cfg), outcomes) == Some(Ok::<(), AuditErrorView>(())) <==> exists|
            i: int,
        | #[trigger]
            settled_by(cfg.max_retries, outcomes, i) && outcomes[i].committed(),
{
    let i = lemma_settled_or_not(cfg.max_retries, outcomes);
    if settled_by(cfg.max_retries, outcomes, i) {
        lemma_settled(posting_begun(cfg), outcomes, i);
    } else {
        lemma_unsettled(posting_begun(cfg), outcomes);
    }
    if exists|k: int| #[trigger]
        settled_by(cfg.max_retries, outcomes, k) && outcomes[k].committed() {
        let k = choose|k: int| #[trigger]
            settled_by(cfg.max_retries, outcomes, k) && outcomes[k].committed();
        lemma_settled(posting_begun(cfg), outcomes, k);
    }
}

/// A status that is neither 2xx nor 429 nor 5xx fails the batch at once,
/// whatever retries are left.
pub proof fn law_refusal_is_final(state: PostBatch, outcomes: Seq<OutcomeView>, code: u16)
    requires
        outcomes.len() > 0,
        outcomes[0] == OutcomeView::Status(code),
        !(200 <= code <= 299),
        code != 429,
        !(500 <= code <= 599),
    ensures
        posted(state, outcomes) == Some(
            Err::<(), AuditErrorView>(
                AuditErrorView::WriteFailed {
                    reason: "collector returned HTTP "@ + status_text(code),
                },
            ),
        ),
        attempts(state, outcomes) == 1,
        waits(state, outcomes).len() == 0,
{
}

/// The collector is asked at most once more than there are retries.
pub proof fn law_attempts_bounded(cfg: ConfigView, outcomes: Seq<OutcomeView>)
    ensures
        attempts(posting_begun(cfg), outcomes) <= cfg.max_retries + 1,
        waits(posting_begun(cfg), outcomes).len() <= cfg.max_retries,
{
    let i = lemma_settled_or_not(cfg.max_retries, outcomes);
    if settled_by(cfg.max_retries, outcomes, i) {
        lemma_settled(posting_begun(cfg), outcomes, i);
    } else {
        lemma_unsettled(posting_begun(cfg), outcomes);
    }
}

/// The first wait is the configured backoff, and each further one is twice the
/// one before it, up to the largest number of milliseconds there is.
pub proof fn law_backoff_doubles(cfg: ConfigView, outcomes: Seq<OutcomeView>, k: nat)
    requires
        k < waits(posting_begun(cfg), outcomes).len(),
    ensures
        waits(posting_begun(cfg), outcomes)[k as int] == backoff(cfg.retry_backoff_ms, k),
        backoff(cfg.retry_backoff_ms, 0) == cfg.retry_backoff_ms,
        backoff(cfg.retry_backoff_ms, k + 1) == doubled(backoff(cfg.retry_backoff_ms, k)),
{
    lemma_wait(posting_begun(cfg), outcomes, k);
    lemma_backoff_step(cfg.retry_backoff_ms, k);
}

/// The backoff before the next retry is twice this one.
pub(crate) proof fn lemma_backoff_step(ms: u64, k: nat)
    ensures
        backoff(ms, 0) == ms,
        backoff(ms, k + 1) == doubled(backoff(ms, k)),
{
    vstd::arithmetic::power2::lemma2_to64();
    vstd::arithmetic::power2::lemma_pow2_unfold(k + 1);
    let p = vstd::arithmetic::power2::pow2(k);
    assert(ms * (2 * p) == 2 * (ms * p)) by (nonlinear_arith);
    assert(ms * p >= 0) by (nonlinear_arith)
        requires
            ms >= 0,
            p >= 0,
    ;
}

/// If no attempt takes longer than the timeout, a batch is answered within
/// `(max_retries + 1) * timeout_ms` plus the backoffs.
pub proof fn law_worst_case_latency(cfg: ConfigView, outcomes: Seq<OutcomeView>, spent: Seq<nat>)
    requires
        spent.len() == attempts(posting_begun(cfg), outcomes),
        forall|i: int| 0 <= i < spent.len() ==> #[trigger] spent[i] <= cfg.timeout_ms,
    ensures
        total(spent) + total(wait_times(posting_begun(cfg), outcomes)) <= (cfg.max_retries + 1)
            * cfg.timeout_ms + total_backoff(cfg.retry_backoff_ms, cfg.max_retries as nat),
{
    let state = posting_begun(cfg);
    let times = wait_times(state, outcomes);
    let n = times.len();
    law_attempts_bounded(cfg, outcomes);
    lemma_total_bounded(spent, cfg.timeout_ms as nat);
    let (made, allowed, timeout) = (spent.len(), cfg.max_retries + 1, cfg.timeout_ms as int);
    assert(made * timeout <= allowed * timeout) by (nonlinear_arith)
        requires
            made <= allowed,
            timeout >= 0,
    ;
    lemma_waits_total(state, outcomes, n);
    assert(times.take(n as int) == times);
    lemma_total_backoff_grows(cfg.retry_backoff_ms, n, cfg.max_retries as nat);
}

/// The content of an outcome is its status, or why no answer came.
pub proof fn law_outcome_content(outcome: Outcome)
    ensures
        match outcome {
            Outcome::Status(code) => outcome@ == OutcomeView::Status(code),
            Outcome::Failed { timed_out, detail } => outcome@ == (OutcomeView::Failed {
                timed_out,
                detail: detail@,
            }),
        },
{
}

/// The content of a step is the answer, or the wait.
pub proof fn law_step_content(step: PostStep)
    ensures
        match step {
            PostStep::Done(Ok(())) => step@ == PostStepView::Done(Ok(())),
            PostStep::Done(Err(error)) => step@ == PostStepView::Done(Err(error@)),
            PostStep::RetryAfter(ms) => step@ == PostStepView::RetryAfter(ms),
        },
{
}

/// Any status code of three digits may come, and any failure.
pub proof fn law_outcomes_that_may_come(outcome: OutcomeView)
    ensures
        outcome matches OutcomeView::Status(code) ==> (outcome.well_formed() <==> 100 <= code
            <= 999),
        outcome is Failed ==> outcome.well_formed(),
{
}

/// Posting begins with no retry made, all configured retries left, and the
/// configured backoff.
pub proof fn law_posting_begins(cfg: ConfigView)
    ensures
        posting_begun(cfg).attempt == 0,
        posting_begun(cfg).max_retries == cfg.max_retries,
        posting_begun(cfg).backoff_ms == cfg.retry_backoff_ms,
{
}

/// Any 2xx commits the batch, at whatever attempt, and nothing else does.
pub proof fn law_any_2xx_commits(state: PostBatch, outcome: OutcomeView)
    ensures
        state.after(outcome).1 == PostStepView::Done(Ok(())) <==> (
        outcome matches OutcomeView::Status(code) && 200 <= code <= 299),
        outcome.committed() <==> (outcome matches OutcomeView::Status(code) && 200 <= code <= 299),
{
}

/// While fewer than `max_retries` retries were made, 429, any 5xx and any failure
/// of the transport lead to a further attempt, after the current backoff; the
/// next backoff is twice as long, up to the largest number of milliseconds there
/// is. Nothing else leads to one.
pub proof fn law_retried_while_retries_are_left(state: PostBatch, outcome: OutcomeView)
    ensures
        ({
            let (next, step) = state.after(outcome);
            let again = match outcome {
                OutcomeView::Status(code) => code == 429 || 500 <= code <= 599,
                OutcomeView::Failed { .. } => true,
            };
            &&& outcome.retryable() <==> again
            &&& step is RetryAfter <==> again && state.attempt < state.max_retries
            &&& step matches PostStepView::RetryAfter(ms) ==> {
                &&& ms == state.backoff_ms
                &&& next.attempt == state.attempt + 1
                &&& next.max_retries == state.max_retries
                &&& 2 * ms <= u64::MAX ==> next.backoff_ms == 2 * ms
                &&& 2 * ms > u64::MAX ==> next.backoff_ms == u64::MAX
            }
            &&& step is Done ==> next == state
        }),
{
}

/// A batch that is given up is told why by its last attempt: throttled by a 429,
/// the status by any other code, a timeout by a timeout, and the transport's own
/// words by any other failure.
pub proof fn law_last_attempt_tells_why(
    state: PostBatch,
    outcome: OutcomeView,
    told: AuditErrorView,
)
    requires
        state.after(outcome).1 == PostStepView::Done(Err(told)),
    ensures
        match outcome {
            OutcomeView::Status(code) => if code == 429 {
                told is Throttled
            } else {
                told == (AuditErrorView::WriteFailed {
                    reason: "collector returned HTTP "@ + status_text(code),
                })
            },
            OutcomeView::Failed { timed_out: true, .. } => told is Timeout,
            OutcomeView::Failed { timed_out: false, detail } => told == (
            AuditErrorView::WriteFailed { reason: "collector unreachable: "@ + detail }),
        },
{
}

/// The backoff before retry `k` is the first one times two to the `k`, unless
/// that exceeds the largest number of milliseconds there is.
pub proof fn law_backoff_value(first_ms: u64, k: nat)
    ensures
        first_ms * vstd::arithmetic::power2::pow2(k) <= u64::MAX ==> backoff(first_ms, k)
            == first_ms * vstd::arithmetic::power2::pow2(k),
        first_ms * vstd::arithmetic::power2::pow2(k) > u64::MAX ==> backoff(first_ms, k)
            == u64::MAX,
{
    assert(first_ms * vstd::arithmetic::power2::pow2(k) >= 0) by (nonlinear_arith)
        requires
            first_ms >= 0,
            vstd::arithmetic::power2::pow2(k) >= 0,
    ;
}

} // verus!
