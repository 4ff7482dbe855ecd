use smartcard_apdu::retry::Outcome;
use smartcard_apdu::{Retry, RetryProgress, TransmitError, TransmitResult};

/// Runs the retry policy against scripted attempt outcomes. Returns how it
/// ended, the pause before each attempt made, and how many outcomes of the
/// script were left unused.
fn retry_with(
    max_retries: Option<u32>,
    retry_delay_ms: Option<u32>,
    script: Vec<Outcome>,
) -> (Outcome, Vec<Option<u64>>, usize) {
    let mut pauses = Vec::new();
    let mut outcomes = script.into_iter();
    let mut progress = Retry::begin(max_retries, retry_delay_ms);
    loop {
        match progress {
            RetryProgress::Attempt { state, sleep_ms } => {
                pauses.push(sleep_ms);
                let outcome = outcomes.next().expect("the script ran out of outcomes");
                progress = state.step(outcome);
            }
            RetryProgress::Done(result) => return (Ok(result), pauses, outcomes.count()),
            RetryProgress::Failed(error) => return (Err(error), pauses, outcomes.count()),
        }
    }
}

fn answer(data: &[u8], sw1: u8, sw2: u8) -> Outcome {
    Ok(TransmitResult { data: data.to_vec(), sw1, sw2 })
}

fn transport(message: &str) -> Outcome {
    Err(TransmitError::Transport(message.to_string()))
}

#[test]
fn success_on_first_attempt_takes_no_pause() {
    let (outcome, pauses, unused) =
        retry_with(None, None, vec![answer(&[1, 2], 0x90, 0x00), answer(&[], 0x6A, 0x82)]);
    assert_eq!(outcome, answer(&[1, 2], 0x90, 0x00));
    assert_eq!(pauses, vec![None]);
    assert_eq!(unused, 1);
}

#[test]
fn success_after_two_transport_failures() {
    let (outcome, pauses, unused) = retry_with(
        Some(3),
        Some(25),
        vec![transport("first"), transport("second"), answer(&[9], 0x90, 0x00)],
    );
    assert_eq!(outcome, answer(&[9], 0x90, 0x00));
    assert_eq!(pauses, vec![None, Some(25), Some(25)]);
    assert_eq!(unused, 0);
}

#[test]
fn persistent_error_status_is_returned_after_all_attempts() {
    let (outcome, pauses, unused) = retry_with(
        Some(3),
        None,
        vec![
            answer(&[], 0x6A, 0x82),
            answer(&[], 0x6A, 0x82),
            answer(&[], 0x6A, 0x82),
            answer(&[], 0x90, 0x00),
        ],
    );
    assert_eq!(outcome, answer(&[], 0x6A, 0x82));
    assert_eq!(pauses, vec![None, Some(100), Some(100)]);
    assert_eq!(unused, 1);
}

#[test]
fn last_attempt_answer_is_the_one_returned() {
    let (outcome, _, _) = retry_with(
        Some(2),
        Some(1),
        vec![answer(&[1], 0x6A, 0x82), answer(&[2], 0x69, 0x85)],
    );
    assert_eq!(outcome, answer(&[2], 0x69, 0x85));
}

#[test]
fn continuation_status_is_returned_at_once() {
    let (outcome, pauses, unused) =
        retry_with(None, None, vec![answer(&[7], 0x61, 0x10), answer(&[], 0x90, 0x00)]);
    assert_eq!(outcome, answer(&[7], 0x61, 0x10));
    assert_eq!(pauses.len(), 1);
    assert_eq!(unused, 1);
}

#[test]
fn last_transport_error_is_surfaced() {
    let (outcome, pauses, _) = retry_with(
        None,
        Some(0),
        vec![transport("one"), transport("two"), transport("three")],
    );
    assert_eq!(outcome, transport("three"));
    assert_eq!(pauses, vec![None, Some(0), Some(0)]);
}

#[test]
fn error_status_then_transport_failure_surfaces_the_failure() {
    let (outcome, pauses, _) =
        retry_with(Some(2), Some(5), vec![answer(&[], 0x6F, 0x00), transport("gone")]);
    assert_eq!(outcome, transport("gone"));
    assert_eq!(pauses, vec![None, Some(5)]);
}

#[test]
fn lock_failure_is_not_retried() {
    let (outcome, pauses, unused) = retry_with(
        Some(5),
        None,
        vec![
            transport("flaky"),
            Err(TransmitError::Lock("poisoned".to_string())),
            answer(&[], 0x90, 0x00),
        ],
    );
    assert_eq!(outcome, Err(TransmitError::Lock("poisoned".to_string())));
    assert_eq!(pauses, vec![None, Some(100)]);
    assert_eq!(unused, 1);
}

#[test]
fn single_attempt_never_pauses() {
    let (outcome, pauses, _) = retry_with(Some(1), Some(50), vec![transport("only")]);
    assert_eq!(outcome, transport("only"));
    assert_eq!(pauses, vec![None]);
}

#[test]
fn zero_attempts_fail_without_touching_the_card() {
    let (outcome, pauses, unused) = retry_with(Some(0), None, vec![answer(&[], 0x90, 0x00)]);
    assert_eq!(outcome, Err(TransmitError::NoAttempt));
    assert!(pauses.is_empty());
    assert_eq!(unused, 1);
}

#[test]
fn defaults_are_three_attempts_and_a_hundred_milliseconds() {
    match Retry::begin(None, None) {
        RetryProgress::Attempt { state, sleep_ms } => {
            assert_eq!(state, Retry { attempt: 0, max_retries: 3, delay_ms: 100 });
            assert_eq!(sleep_ms, None);
        }
        other => panic!("unexpected {:?}", other),
    }
    assert_eq!(smartcard_apdu::retry::ATTEMPT_MAX_CONTINUATIONS, 3);
}

#[test]
fn largest_delay_is_kept() {
    match Retry::begin(Some(u32::MAX), Some(u32::MAX)) {
        RetryProgress::Attempt { state, .. } => {
            assert_eq!(state, Retry { attempt: 0, max_retries: u32::MAX, delay_ms: 4_294_967_295 });
        }
        other => panic!("unexpected {:?}", other),
    }
}

#[test]
fn error_messages_are_the_transport_and_guard_words() {
    assert_eq!(TransmitError::Transport("a".to_string()).message(), "a");
    assert_eq!(TransmitError::Lock("b".to_string()).message(), "b");
    assert_eq!(
        TransmitError::NoAttempt.message(),
        "Failed to transmit APDU after retries"
    );
    assert!(TransmitError::Lock(String::new()).is_lock());
    assert!(!TransmitError::Transport(String::new()).is_lock());
    assert!(!TransmitError::NoAttempt.is_lock());
}

#[test]
fn retry_step_accepts_states_built_by_hand() {
    let spent = Retry { attempt: u32::MAX, max_retries: u32::MAX, delay_ms: 1 };
    assert_eq!(spent.step(transport("late")), RetryProgress::Failed(
        TransmitError::Transport("late".to_string()),
    ));
    let early = Retry { attempt: 1, max_retries: 4, delay_ms: 9 };
    assert_eq!(
        early.step(answer(&[], 0x6A, 0x82)),
        RetryProgress::Attempt {
            state: Retry { attempt: 2, max_retries: 4, delay_ms: 9 },
            sleep_ms: Some(9),
        }
    );
}
