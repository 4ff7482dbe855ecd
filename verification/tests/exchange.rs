use smartcard_apdu::retry::{Outcome, ATTEMPT_MAX_CONTINUATIONS};
use smartcard_apdu::{Progress, Reply, Retry, RetryProgress, Transceiver, TransmitError, TransmitResult};
use std::collections::VecDeque;

/// A card behind a scripted transport that records what it is asked.
struct ScriptedCard {
    replies: VecDeque<Reply>,
    commands: Vec<Vec<u8>>,
    pauses: Vec<u64>,
}

impl ScriptedCard {
    fn with(replies: Vec<Reply>) -> ScriptedCard {
        ScriptedCard { replies: replies.into(), commands: Vec::new(), pauses: Vec::new() }
    }

    fn exchange(&mut self, command: &[u8], capacity: u64) -> Reply {
        self.commands.push(command.to_vec());
        let reply = self.replies.pop_front().expect("the script ran out of replies");
        if let Reply::Received(bytes) = &reply {
            assert!(bytes.len() as u64 <= capacity, "the buffer is too small for the reply");
        }
        reply
    }

    fn transmit(&mut self, command: &[u8], expected: u32, max: Option<u32>) -> Outcome {
        let mut progress = Transceiver::begin(command.to_vec(), expected, max);
        loop {
            match progress {
                Progress::Send { state, command, capacity } => {
                    let reply = self.exchange(&command, capacity);
                    progress = state.step(reply);
                }
                Progress::Done(result) => return Ok(result),
                Progress::Failed(error) => return Err(error),
            }
        }
    }

    fn transmit_with_retry(
        &mut self,
        command: &[u8],
        expected: u32,
        max_retries: Option<u32>,
        retry_delay_ms: Option<u32>,
    ) -> Outcome {
        let mut progress = Retry::begin(max_retries, retry_delay_ms);
        loop {
            match progress {
                RetryProgress::Attempt { state, sleep_ms } => {
                    if let Some(ms) = sleep_ms {
                        self.pauses.push(ms);
                    }
                    let outcome = self.transmit(command, expected, Some(ATTEMPT_MAX_CONTINUATIONS));
                    progress = state.step(outcome);
                }
                RetryProgress::Done(result) => return Ok(result),
                RetryProgress::Failed(error) => return Err(error),
            }
        }
    }
}

const READ: [u8; 5] = [0x00, 0xB0, 0x00, 0x00, 0x08];
const GET_RESPONSE_5: [u8; 5] = [0x00, 0xC0, 0x00, 0x00, 0x05];

#[test]
fn retry_recovers_after_two_transport_failures() {
    let mut card = ScriptedCard::with(vec![
        Reply::Failed("timeout".to_string()),
        Reply::Failed("timeout again".to_string()),
        Reply::Received(vec![0x90, 0x00]),
    ]);
    let outcome = card.transmit_with_retry(&READ, 8, Some(3), Some(40));
    assert_eq!(outcome, Ok(TransmitResult { data: vec![], sw1: 0x90, sw2: 0x00 }));
    assert_eq!(card.pauses, vec![40, 40]);
    assert_eq!(card.commands, vec![READ.to_vec(), READ.to_vec(), READ.to_vec()]);
}

#[test]
fn retry_returns_persistent_file_not_found() {
    let mut card = ScriptedCard::with(vec![
        Reply::Received(vec![0x6A, 0x82]),
        Reply::Received(vec![0x6A, 0x82]),
        Reply::Received(vec![0x6A, 0x82]),
    ]);
    let outcome = card.transmit_with_retry(&READ, 8, None, None);
    assert_eq!(outcome, Ok(TransmitResult { data: vec![], sw1: 0x6A, sw2: 0x82 }));
    assert_eq!(card.pauses, vec![100, 100]);
    assert_eq!(card.commands.len(), 3);
    assert!(card.replies.is_empty());
}

#[test]
fn retry_surfaces_last_transport_error_verbatim() {
    let mut card = ScriptedCard::with(vec![
        Reply::Failed("first".to_string()),
        Reply::Failed("second".to_string()),
    ]);
    let outcome = card.transmit_with_retry(&READ, 8, Some(2), Some(1));
    assert_eq!(outcome, Err(TransmitError::Transport("second".to_string())));
    assert_eq!(card.pauses, vec![1]);
}

#[test]
fn retry_attempt_chains_within_one_attempt() {
    let mut card = ScriptedCard::with(vec![
        Reply::Received(vec![0x61, 0x05]),
        Reply::Received(vec![1, 2, 3, 4, 5, 0x90, 0x00]),
    ]);
    let outcome = card.transmit_with_retry(&READ, 0, None, None);
    assert_eq!(outcome, Ok(TransmitResult { data: vec![1, 2, 3, 4, 5], sw1: 0x90, sw2: 0x00 }));
    assert!(card.pauses.is_empty());
    assert_eq!(card.commands, vec![READ.to_vec(), GET_RESPONSE_5.to_vec()]);
}

#[test]
fn retry_accepts_unfinished_chain_without_another_attempt() {
    let mut card = ScriptedCard::with(vec![
        Reply::Received(vec![0x61, 0x01]),
        Reply::Received(vec![0x0A, 0x61, 0x01]),
        Reply::Received(vec![0x0B, 0x61, 0x01]),
        Reply::Received(vec![0x0C, 0x61, 0x01]),
        Reply::Received(vec![0x0D, 0x90, 0x00]),
    ]);
    let outcome = card.transmit_with_retry(&READ, 0, Some(5), Some(10));
    assert_eq!(outcome, Ok(TransmitResult { data: vec![0x0A, 0x0B, 0x0C], sw1: 0x61, sw2: 0x01 }));
    assert!(card.pauses.is_empty());
    assert_eq!(card.commands.len(), 4);
    assert_eq!(card.replies.len(), 1);
}

#[test]
fn retry_repeats_whole_transaction_after_failed_chain_status() {
    let mut card = ScriptedCard::with(vec![
        Reply::Received(vec![0x61, 0x05]),
        Reply::Received(vec![0x6F, 0x00]),
        Reply::Received(vec![0x61, 0x05]),
        Reply::Received(vec![1, 2, 3, 4, 5, 0x90, 0x00]),
    ]);
    let outcome = card.transmit_with_retry(&READ, 0, Some(2), Some(7));
    assert_eq!(outcome, Ok(TransmitResult { data: vec![1, 2, 3, 4, 5], sw1: 0x90, sw2: 0x00 }));
    assert_eq!(card.pauses, vec![7]);
    assert_eq!(
        card.commands,
        vec![READ.to_vec(), GET_RESPONSE_5.to_vec(), READ.to_vec(), GET_RESPONSE_5.to_vec()]
    );
}

#[test]
fn transmit_never_sends_more_than_limit_allows() {
    let mut replies = vec![Reply::Received(vec![0x61, 0xFF])];
    for i in 0..20u8 {
        replies.push(Reply::Received(vec![i, 0x61, 0xFF]));
    }
    let mut card = ScriptedCard::with(replies);
    let outcome = card.transmit(&READ, 0, Some(10));
    assert_eq!(
        outcome,
        Ok(TransmitResult { data: (0..10u8).collect(), sw1: 0x61, sw2: 0xFF })
    );
    assert_eq!(card.commands.len(), 11);
    assert_eq!(card.replies.len(), 10);
}
