use crate::types::{TransmitError, TransmitErrorView, TransmitResult, TransmitResultView};
use vstd::prelude::*;

verus! {

/// How many attempts a transaction gets where the caller names no number.
pub const DEFAULT_MAX_RETRIES: u32 = 3;

/// The pause between two attempts, in milliseconds, where the caller names
/// none.
pub const DEFAULT_RETRY_DELAY_MS: u32 = 100;

/// The continuation limit of each attempt.
pub const ATTEMPT_MAX_CONTINUATIONS: u32 = 3;

/// How one attempt ended: with the card's answer, or without one.
pub type Outcome = Result<TransmitResult, TransmitError>;

pub type OutcomeView = Result<TransmitResultView, TransmitErrorView>;

/// What an [`Outcome`] is.
pub open spec fn outcome_view(outcome: Outcome) -> OutcomeView {
    match outcome {
        Ok(r) => Ok(r@),
        Err(e) => Err(e@),
    }
}

/// The retry policy in progress: `attempt` is the index of the attempt that
/// is under way.
#[derive(Clone, Debug, PartialEq, Eq)]
pub struct Retry {
    pub attempt: u32,
    pub max_retries: u32,
    pub delay_ms: u64,
}

pub struct RetryView {
    pub attempt: nat,
    pub max_retries: nat,
    pub delay_ms: u64,
}

impl View for Retry {
    type V = RetryView;

    open spec fn view(&self) -> RetryView {
        RetryView {
            attempt: self.attempt as nat,
            max_retries: self.max_retries as nat,
            delay_ms: self.delay_ms,
        }
    }
}

impl RetryView {
    /// The attempt under way is one of those permitted.
    pub open spec fn wf(self) -> bool {
        self.attempt < self.max_retries
    }

    /// Whether the attempt under way is the last one permitted.
    pub open spec fn on_last_attempt(self) -> bool {
        self.attempt + 1 >= self.max_retries
    }

    /// The state of the next attempt.
    pub open spec fn advanced(self) -> RetryView {
        RetryView { attempt: self.attempt + 1, ..self }
    }
}

/// What the caller does next.
#[derive(Clone, Debug, PartialEq, Eq)]
pub enum RetryProgress {
    /// Pause for `sleep_ms` milliseconds where it is given, run one whole
    /// transaction, and hand its outcome to `state`.
    Attempt { state: Retry, sleep_ms: Option<u64> },
    /// The answer to return.
    Done(TransmitResult),
    /// The error to raise.
    Failed(TransmitError),
}

pub enum RetryProgressView {
    Attempt { state: RetryView, sleep_ms: Option<u64> },
    Done(TransmitResultView),
    Failed(TransmitErrorView),
}

impl View for RetryProgress {
    type V = RetryProgressView;

    open spec fn view(&self) -> RetryProgressView {
        match self {
            RetryProgress::Attempt { state, sleep_ms } => RetryProgressView::Attempt {
                state: state@,
                sleep_ms: *sleep_ms,
            },
            RetryProgress::Done(r) => RetryProgressView::Done(r@),
            RetryProgress::Failed(e) => RetryProgressView::Failed(e@),
        }
    }
}

impl RetryProgressView {
    pub open spec fn wf(self) -> bool {
        match self {
            RetryProgressView::Attempt { state, .. } => state.wf(),
            _ => true,
        }
    }
}

/// The number of attempts in force: the caller's, or the default.
pub open spec fn retry_limit(max_retries: Option<u32>) -> nat {
    match max_retries {
        Some(m) => m as nat,
        None => DEFAULT_MAX_RETRIES as nat,
    }
}

/// The pause in force: the caller's, or the default.
pub open spec fn retry_delay(retry_delay_ms: Option<u32>) -> u64 {
    match retry_delay_ms {
        Some(d) => d as u64,
        None => DEFAULT_RETRY_DELAY_MS as u64,
    }
}

/// A status word that ends the retrying at once: `90 00`, or `61 xx`, which
/// the transaction's own chaining has already dealt with.
pub open spec fn is_final(result: TransmitResultView) -> bool {
    result.is_success() || result.is_continuation()
}

/// An outcome after which another attempt is made while attempts are left:
/// an answer with any other status word, or an error other than a failure
/// to acquire the card handle.
pub open spec fn retryable(outcome: OutcomeView) -> bool {
    match outcome {
        Ok(r) => !is_final(r),
        Err(e) => !e.is_lock(),
    }
}

/// An outcome handed on as it is: an answer is returned, an error raised.
pub open spec fn verdict(outcome: OutcomeView) -> RetryProgressView {
    match outcome {
        Ok(r) => RetryProgressView::Done(r),
        Err(e) => RetryProgressView::Failed(e),
    }
}

/// The opening move: the first attempt, without a pause; or, where no
/// attempt is permitted, failure at once.
pub open spec fn retry_begin_spec(
    max_retries: Option<u32>,
    retry_delay_ms: Option<u32>,
) -> RetryProgressView {
    if retry_limit(max_retries) == 0 {
        RetryProgressView::Failed(TransmitErrorView::NoAttempt)
    } else {
        RetryProgressView::Attempt {
            state: RetryView {
                attempt: 0,
                max_retries: retry_limit(max_retries),
                delay_ms: retry_delay(retry_delay_ms),
            },
            sleep_ms: None,
        }
    }
}

/// The policy: a retryable outcome before the last attempt leads to a pause
/// and the next attempt; every other outcome is handed on as it is.
pub open spec fn retry_step_spec(state: RetryView, outcome: OutcomeView) -> RetryProgressView {
    if retryable(outcome) && !state.on_last_attempt() {
        RetryProgressView::Attempt { state: state.advanced(), sleep_ms: Some(state.delay_ms) }
    } else {
        verdict(outcome)
    }
}

impl Retry {
    /// Opens the retrying of one transaction, with `max_retries` attempts
    /// (three where none is given) and `retry_delay_ms` milliseconds between
    /// two attempts (a hundred where none is given).
    pub fn begin(max_retries: Option<u32>, retry_delay_ms: Option<u32>) -> (p: RetryProgress)
        ensures
            p@ == retry_begin_spec(max_retries, retry_delay_ms),
            p@.wf(),
    {
        let limit: u32 = match max_retries {
            Some(m) => m,
            None => DEFAULT_MAX_RETRIES,
        };
        let delay: u32 = match retry_delay_ms {
            Some(d) => d,
            None => DEFAULT_RETRY_DELAY_MS,
        };
        if limit == 0 {
            RetryProgress::Failed(TransmitError::NoAttempt)
        } else {
            RetryProgress::Attempt {
                state: Retry { attempt: 0, max_retries: limit, delay_ms: delay as u64 },
                sleep_ms: None,
            }
        }
    }

    /// Takes the outcome of the attempt under way and decides what happens
    /// next.
    pub fn step(self, outcome: Outcome) -> (p: RetryProgress)
        ensures
            p@ == retry_step_spec(self@, outcome_view(outcome)),
            p@.wf(),
    {
        let last = self.max_retries <= self.attempt || self.max_retries - self.attempt == 1;
        match outcome {
            Ok(result) => {
                if last || result.is_success() || result.is_continuation() {
                    RetryProgress::Done(result)
                } else {
                    self.next_attempt()
                }
            },
            Err(error) => {
                if last || error.is_lock() {
                    RetryProgress::Failed(error)
                } else {
                    self.next_attempt()
                }
            },
        }
    }

    fn next_attempt(self) -> (p: RetryProgress)
        requires
            !self@.on_last_attempt(),
        ensures
            p@ == (RetryProgressView::Attempt {
                state: self@.advanced(),
                sleep_ms: Some(self.delay_ms),
            }),
            p@.wf(),
    {
        RetryProgress::Attempt {
            state: Retry {
                attempt: self.attempt + 1,
                max_retries: self.max_retries,
                delay_ms: self.delay_ms,
            },
            sleep_ms: Some(self.delay_ms),
        }
    }
}

/// Where the retrying stands after the attempts have ended with `outcomes`,
/// in order. Outcomes beyond the end of the retrying are not looked at.
pub open spec fn retry_run(progress: RetryProgressView, outcomes: Seq<OutcomeView>) -> RetryProgressView
    decreases outcomes.len(),
{
    match progress {
        RetryProgressView::Attempt { state, .. } => if outcomes.len() == 0 {
            progress
        } else {
            retry_run(retry_step_spec(state, outcomes[0]), outcomes.drop_first())
        },
        _ => progress,
    }
}

/// How many attempts are started on the way to `retry_run(progress, outcomes)`.
pub open spec fn attempts_made(progress: RetryProgressView, outcomes: Seq<OutcomeView>) -> nat
    decreases outcomes.len(),
{
    match progress {
        RetryProgressView::Attempt { state, .. } => if outcomes.len() == 0 {
            1
        } else {
            1 + attempts_made(retry_step_spec(state, outcomes[0]), outcomes.drop_first())
        },
        _ => 0,
    }
}

/// How many pauses are taken on the way to `retry_run(progress, outcomes)`.
pub open spec fn sleeps_taken(progress: RetryProgressView, outcomes: Seq<OutcomeView>) -> nat
    decreases outcomes.len(),
{
    match progress {
        RetryProgressView::Attempt { state, sleep_ms } => {
            let now: nat = if sleep_ms is Some { 1 } else { 0 };
            if outcomes.len() == 0 {
                now
            } else {
                now + sleeps_taken(retry_step_spec(state, outcomes[0]), outcomes.drop_first())
            }
        },
        _ => 0,
    }
}

/// Every step leaves a well-formed state: another attempt is asked for only
/// while one is permitted.
pub proof fn lemma_retry_step_keeps_well_formed(state: RetryView, outcome: OutcomeView)
    ensures
        retry_step_spec(state, outcome).wf(),
{
}

/// A failure to acquire the card handle is raised at once, whatever attempts
/// are left.
pub proof fn lemma_lock_failure_is_never_retried(state: RetryView, message: Seq<char>)
    ensures
        retry_step_spec(state, Err(TransmitErrorView::Lock(message))) == RetryProgressView::Failed(
            TransmitErrorView::Lock(message),
        ),
{
}

proof fn lemma_retry_settles(
    state: RetryView,
    sleep_ms: Option<u64>,
    outcomes: Seq<OutcomeView>,
    k: nat,
)
    requires
        state.attempt + k < state.max_retries,
        k < outcomes.len(),
        forall|i: int| 0 <= i < k ==> retryable(#[trigger] outcomes[i]),
        !retryable(outcomes[k as int]) || state.attempt + k + 1 == state.max_retries,
    ensures
        retry_run(RetryProgressView::Attempt { state, sleep_ms }, outcomes) == verdict(
            outcomes[k as int],
        ),
        attempts_made(RetryProgressView::Attempt { state, sleep_ms }, outcomes) == k + 1,
        sleeps_taken(RetryProgressView::Attempt { state, sleep_ms }, outcomes) == k + (if sleep_ms is Some {
            1nat
        } else {
            0nat
        }),
    decreases k,
{
    let start = RetryProgressView::Attempt { state, sleep_ms };
    let rest = outcomes.drop_first();
    let next = retry_step_spec(state, outcomes[0]);
    assert(retry_run(start, outcomes) == retry_run(next, rest));
    assert(attempts_made(start, outcomes) == 1 + attempts_made(next, rest));
    if k == 0 {
        assert(next == verdict(outcomes[0]));
        assert(retry_run(next, rest) == next);
        assert(attempts_made(next, rest) == 0);
        assert(sleeps_taken(next, rest) == 0);
    } else {
        assert(retryable(outcomes[0]));
        assert(next == RetryProgressView::Attempt {
            state: state.advanced(),
            sleep_ms: Some(state.delay_ms),
        });
        assert forall|i: int| 0 <= i < k - 1 implies retryable(#[trigger] rest[i]) by {
            assert(rest[i] == outcomes[i + 1]);
        }
        assert(rest[k - 1] == outcomes[k as int]);
        lemma_retry_settles(state.advanced(), Some(state.delay_ms), rest, (k - 1) as nat);
    }
}

/// The retrying ends with the first outcome that is not retryable, or with
/// the outcome of the last permitted attempt, whichever comes first. That
/// outcome is handed on as it is: an answer is returned whatever its status
/// word, an error is raised. Before it, one attempt was made per earlier
/// outcome, with one pause between each two attempts and none before the
/// first or after the last.
pub proof fn lemma_retry_ends_with_deciding_outcome(
    max_retries: Option<u32>,
    retry_delay_ms: Option<u32>,
    outcomes: Seq<OutcomeView>,
    k: nat,
)
    requires
        k < retry_limit(max_retries),
        k < outcomes.len(),
        forall|i: int| 0 <= i < k ==> retryable(#[trigger] outcomes[i]),
        !retryable(outcomes[k as int]) || k + 1 == retry_limit(max_retries),
    ensures
        retry_run(retry_begin_spec(max_retries, retry_delay_ms), outcomes) == verdict(
            outcomes[k as int],
        ),
        attempts_made(retry_begin_spec(max_retries, retry_delay_ms), outcomes) == k + 1,
        sleeps_taken(retry_begin_spec(max_retries, retry_delay_ms), outcomes) == k,
{
    lemma_retry_settles(
        RetryView {
            attempt: 0,
            max_retries: retry_limit(max_retries),
            delay_ms: retry_delay(retry_delay_ms),
        },
        None,
        outcomes,
        k,
    );
}

/// Against a card that answers every attempt with a status word that is
/// neither `90 00` nor `61 xx`, every permitted attempt is made, and the
/// answer of the last one is returned: no error is raised.
pub proof fn lemma_persistent_status_is_returned(
    max_retries: Option<u32>,
    retry_delay_ms: Option<u32>,
    outcomes: Seq<OutcomeView>,
)
    requires
        retry_limit(max_retries) > 0,
        outcomes.len() >= retry_limit(max_retries),
        forall|i: int|
            0 <= i < retry_limit(max_retries) ==> (#[trigger] outcomes[i] is Ok) && !is_final(
                outcomes[i]->Ok_0,
            ),
    ensures
        retry_run(retry_begin_spec(max_retries, retry_delay_ms), outcomes)
            == RetryProgressView::Done(outcomes[retry_limit(max_retries) - 1]->Ok_0),
        attempts_made(retry_begin_spec(max_retries, retry_delay_ms), outcomes) == retry_limit(
            max_retries,
        ),
        sleeps_taken(retry_begin_spec(max_retries, retry_delay_ms), outcomes) == retry_limit(
            max_retries,
        ) - 1,
{
    let k = (retry_limit(max_retries) - 1) as nat;
    assert forall|i: int| 0 <= i < k implies retryable(#[trigger] outcomes[i]) by {
        assert(outcomes[i] is Ok);
    }
    assert(outcomes[k as int] is Ok);
    lemma_retry_ends_with_deciding_outcome(max_retries, retry_delay_ms, outcomes, k);
}

/// Where every permitted attempt fails at the transport, the error of the
/// last attempt is raised.
pub proof fn lemma_last_transport_error_is_surfaced(
    max_retries: Option<u32>,
    retry_delay_ms: Option<u32>,
    outcomes: Seq<OutcomeView>,
)
    requires
        retry_limit(max_retries) > 0,
        outcomes.len() >= retry_limit(max_retries),
        forall|i: int|
            0 <= i < retry_limit(max_retries) ==> (#[trigger] outcomes[i] is Err)
                && outcomes[i]->Err_0 is Transport,
    ensures
        retry_run(retry_begin_spec(max_retries, retry_delay_ms), outcomes)
            == RetryProgressView::Failed(outcomes[retry_limit(max_retries) - 1]->Err_0),
        sleeps_taken(retry_begin_spec(max_retries, retry_delay_ms), outcomes) == retry_limit(
            max_retries,
        ) - 1,
{
    let k = (retry_limit(max_retries) - 1) as nat;
    assert forall|i: int| 0 <= i < k implies retryable(#[trigger] outcomes[i]) by {
        assert(outcomes[i] is Err);
    }
    assert(outcomes[k as int] is Err);
    lemma_retry_ends_with_deciding_outcome(max_retries, retry_delay_ms, outcomes, k);
}

} // verus!
