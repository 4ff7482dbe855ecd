use crate::apdu::{has_status, split, sw1_of, sw2_of, SW1_MORE_DATA, SW1_SUCCESS};
use crate::retry::{
    attempts_made, is_final, lemma_retry_ends_with_deciding_outcome, retry_begin_spec,
    retry_limit, retry_run, retryable, sleeps_taken, OutcomeView, RetryProgressView,
    ATTEMPT_MAX_CONTINUATIONS,
};
use crate::transaction::{
    lemma_first_failure_is_surfaced, lemma_plain_response_is_split, run,
};
use crate::transceiver::{begin_spec, ProgressView};
use crate::types::{ReplyView, TransmitErrorView, TransmitResultView};
use vstd::prelude::*;

verus! {

/// Where one attempt stands after the transport has given `replies`: a whole
/// transaction with the continuation limit of an attempt.
pub open spec fn attempt(
    command: Seq<u8>,
    expected_data_length: u32,
    replies: Seq<ReplyView>,
) -> ProgressView {
    run(begin_spec(command, expected_data_length, Some(ATTEMPT_MAX_CONTINUATIONS)), replies)
}

/// How a transaction that has ended reads as the outcome of an attempt.
pub open spec fn outcome_of(progress: ProgressView) -> OutcomeView
    recommends
        !(progress is Send),
{
    match progress {
        ProgressView::Done(r) => Ok(r),
        ProgressView::Failed(e) => Err(e),
        ProgressView::Send { .. } => arbitrary(),
    }
}

/// The outcome of an attempt that ended with the card's answer.
pub open spec fn answered(result: TransmitResultView) -> OutcomeView {
    Ok(result)
}

/// The outcome of an attempt that ended without an answer.
pub open spec fn unanswered(error: TransmitErrorView) -> OutcomeView {
    Err(error)
}

/// The outcomes of successive attempts, where `transcripts[i]` holds what
/// the transport gives during attempt `i`.
pub open spec fn outcomes_of(
    command: Seq<u8>,
    expected_data_length: u32,
    transcripts: Seq<Seq<ReplyView>>,
) -> Seq<OutcomeView> {
    Seq::new(
        transcripts.len(),
        |i: int| outcome_of(attempt(command, expected_data_length, transcripts[i])),
    )
}

/// Where the retrying of one command stands against those transcripts.
pub open spec fn session(
    command: Seq<u8>,
    expected_data_length: u32,
    max_retries: Option<u32>,
    retry_delay_ms: Option<u32>,
    transcripts: Seq<Seq<ReplyView>>,
) -> RetryProgressView {
    retry_run(
        retry_begin_spec(max_retries, retry_delay_ms),
        outcomes_of(command, expected_data_length, transcripts),
    )
}

/// The transport fails on the command itself.
pub open spec fn fails_at_once(transcript: Seq<ReplyView>) -> bool {
    transcript.len() > 0 && transcript[0] is Failed
}

/// The card answers the command itself with `response`, which carries a
/// status word other than `61 xx`.
pub open spec fn answers_plainly(transcript: Seq<ReplyView>, response: Seq<u8>) -> bool {
    transcript.len() > 0 && transcript[0] == ReplyView::Received(response) && has_status(response)
        && sw1_of(response) != SW1_MORE_DATA
}

/// The status word of `response` is `90 00`.
pub open spec fn reports_success(response: Seq<u8>) -> bool {
    sw1_of(response) == SW1_SUCCESS && sw2_of(response) == 0
}

proof fn lemma_failed_attempt(
    command: Seq<u8>,
    expected_data_length: u32,
    transcript: Seq<ReplyView>,
)
    requires
        fails_at_once(transcript),
    ensures
        outcome_of(attempt(command, expected_data_length, transcript)) == unanswered(
            TransmitErrorView::Transport(transcript[0]->Failed_0),
        ),
        retryable(outcome_of(attempt(command, expected_data_length, transcript))),
{
    assert(transcript =~= seq![ReplyView::Failed(transcript[0]->Failed_0)]
        + transcript.drop_first());
    lemma_first_failure_is_surfaced(
        command,
        expected_data_length,
        Some(ATTEMPT_MAX_CONTINUATIONS),
        transcript[0]->Failed_0,
        transcript.drop_first(),
    );
}

proof fn lemma_plain_attempt(
    command: Seq<u8>,
    expected_data_length: u32,
    transcript: Seq<ReplyView>,
    response: Seq<u8>,
)
    requires
        answers_plainly(transcript, response),
    ensures
        outcome_of(attempt(command, expected_data_length, transcript)) == answered(
            split(response),
        ),
        is_final(split(response)) <==> reports_success(response),
{
    assert(transcript =~= seq![ReplyView::Received(response)] + transcript.drop_first());
    lemma_plain_response_is_split(
        command,
        expected_data_length,
        Some(ATTEMPT_MAX_CONTINUATIONS),
        response,
        transcript.drop_first(),
    );
}

/// Where the transport fails on the first `k` attempts and the card then
/// answers with `90 00`, within the permitted attempts, that answer is
/// returned: its body is all of the response but the status word. A pause
/// was taken before each attempt but the first, and none after the last.
pub proof fn lemma_session_recovers_from_transport_failures(
    command: Seq<u8>,
    expected_data_length: u32,
    max_retries: Option<u32>,
    retry_delay_ms: Option<u32>,
    transcripts: Seq<Seq<ReplyView>>,
    k: nat,
    response: Seq<u8>,
)
    requires
        k < retry_limit(max_retries),
        k < transcripts.len(),
        forall|i: int| 0 <= i < k ==> fails_at_once(#[trigger] transcripts[i]),
        answers_plainly(transcripts[k as int], response),
        reports_success(response),
    ensures
        session(command, expected_data_length, max_retries, retry_delay_ms, transcripts)
            == RetryProgressView::Done(split(response)),
        attempts_made(
            retry_begin_spec(max_retries, retry_delay_ms),
            outcomes_of(command, expected_data_length, transcripts),
        ) == k + 1,
        sleeps_taken(
            retry_begin_spec(max_retries, retry_delay_ms),
            outcomes_of(command, expected_data_length, transcripts),
        ) == k,
{
    let outcomes = outcomes_of(command, expected_data_length, transcripts);
    assert forall|i: int| 0 <= i < k implies retryable(#[trigger] outcomes[i]) by {
        lemma_failed_attempt(command, expected_data_length, transcripts[i]);
    }
    lemma_plain_attempt(command, expected_data_length, transcripts[k as int], response);
    assert(outcomes[k as int] == answered(split(response)));
    lemma_retry_ends_with_deciding_outcome(max_retries, retry_delay_ms, outcomes, k);
}

/// Against a card that answers every attempt with a status word that is
/// neither `90 00` nor `61 xx`, every permitted attempt is made, with a
/// pause between each two, and the answer of the last attempt is returned
/// with that status word: no error is raised.
pub proof fn lemma_session_returns_persistent_status(
    command: Seq<u8>,
    expected_data_length: u32,
    max_retries: Option<u32>,
    retry_delay_ms: Option<u32>,
    transcripts: Seq<Seq<ReplyView>>,
    responses: Seq<Seq<u8>>,
)
    requires
        retry_limit(max_retries) > 0,
        transcripts.len() >= retry_limit(max_retries),
        responses.len() == transcripts.len(),
        forall|i: int|
            0 <= i < retry_limit(max_retries) ==> answers_plainly(
                #[trigger] transcripts[i],
                responses[i],
            ) && !reports_success(responses[i]),
    ensures
        session(command, expected_data_length, max_retries, retry_delay_ms, transcripts)
            == RetryProgressView::Done(split(responses[retry_limit(max_retries) - 1])),
        attempts_made(
            retry_begin_spec(max_retries, retry_delay_ms),
            outcomes_of(command, expected_data_length, transcripts),
        ) == retry_limit(max_retries),
        sleeps_taken(
            retry_begin_spec(max_retries, retry_delay_ms),
            outcomes_of(command, expected_data_length, transcripts),
        ) == retry_limit(max_retries) - 1,
{
    let outcomes = outcomes_of(command, expected_data_length, transcripts);
    let k = (retry_limit(max_retries) - 1) as nat;
    assert forall|i: int| 0 <= i <= k implies #[trigger] outcomes[i] == answered(
        split(responses[i]),
    ) && retryable(outcomes[i]) by {
        assert(answers_plainly(transcripts[i], responses[i]));
        lemma_plain_attempt(command, expected_data_length, transcripts[i], responses[i]);
    }
    assert(outcomes[k as int] == answered(split(responses[k as int])));
    lemma_retry_ends_with_deciding_outcome(max_retries, retry_delay_ms, outcomes, k);
}

} // verus!
