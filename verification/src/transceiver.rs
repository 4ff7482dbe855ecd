use crate::apdu::{
    append_prefix, body_of, get_response, get_response_capacity, get_response_command, has_status,
    split_response, sw1_of, sw2_of, SW1_MORE_DATA, SW1_SUCCESS,
};
use crate::types::{
    Reply, ReplyView, TransmitError, TransmitErrorView, TransmitResult, TransmitResultView,
};
use vstd::prelude::*;

verus! {

/// How many GET RESPONSE commands one transaction may issue where the caller
/// names no limit.
pub const DEFAULT_MAX_CONTINUATIONS: u32 = 3;

/// One logical command in progress. The transceiver decides; the caller sends
/// what a step asks for and hands back the transport's reply.
#[derive(Clone, Debug, PartialEq, Eq)]
pub enum Transceiver {
    /// The command is on its way; no response has been seen yet.
    AwaitingResponse { max_continuations: u32 },
    /// The card announced `remaining` more bytes with `61 xx`, and a GET
    /// RESPONSE for them is on its way. `count` continuations are complete.
    Chaining { data: Vec<u8>, remaining: u8, count: u32, max_continuations: u32 },
}

pub enum TransceiverView {
    AwaitingResponse { max_continuations: nat },
    Chaining { data: Seq<u8>, remaining: u8, count: nat, max_continuations: nat },
}

impl View for Transceiver {
    type V = TransceiverView;

    open spec fn view(&self) -> TransceiverView {
        match self {
            Transceiver::AwaitingResponse { max_continuations } => TransceiverView::AwaitingResponse {
                max_continuations: *max_continuations as nat,
            },
            Transceiver::Chaining {
                data,
                remaining,
                count,
                max_continuations,
            } => TransceiverView::Chaining {
                data: data@,
                remaining: *remaining,
                count: *count as nat,
                max_continuations: *max_continuations as nat,
            },
        }
    }
}

impl TransceiverView {
    /// While chaining, bytes are outstanding and the limit is not yet reached.
    pub open spec fn wf(self) -> bool {
        match self {
            TransceiverView::AwaitingResponse { .. } => true,
            TransceiverView::Chaining { remaining, count, max_continuations, .. } => remaining > 0
                && count < max_continuations,
        }
    }

    /// The most commands that can still be sent from this state, the one on
    /// its way included.
    pub open spec fn budget(self) -> nat {
        match self {
            TransceiverView::AwaitingResponse { max_continuations } => 1 + max_continuations,
            TransceiverView::Chaining { count, max_continuations, .. } => (max_continuations
                - count) as nat,
        }
    }
}

/// What the caller does next.
#[derive(Clone, Debug, PartialEq, Eq)]
pub enum Progress {
    /// Send `command`, receive into a buffer of `capacity` bytes, and hand
    /// the reply to `state`.
    Send { state: Transceiver, command: Vec<u8>, capacity: u64 },
    /// The transaction is complete.
    Done(TransmitResult),
    /// The transaction failed before any response was seen.
    Failed(TransmitError),
}

pub enum ProgressView {
    Send { state: TransceiverView, command: Seq<u8>, capacity: nat },
    Done(TransmitResultView),
    Failed(TransmitErrorView),
}

impl View for Progress {
    type V = ProgressView;

    open spec fn view(&self) -> ProgressView {
        match self {
            Progress::Send { state, command, capacity } => ProgressView::Send {
                state: state@,
                command: command@,
                capacity: *capacity as nat,
            },
            Progress::Done(r) => ProgressView::Done(r@),
            Progress::Failed(e) => ProgressView::Failed(e@),
        }
    }
}

impl ProgressView {
    pub open spec fn wf(self) -> bool {
        match self {
            ProgressView::Send { state, .. } => state.wf(),
            _ => true,
        }
    }
}

/// The limit in force: the caller's, or the default.
pub open spec fn continuation_limit(max_continuations: Option<u32>) -> nat {
    match max_continuations {
        Some(m) => m as nat,
        None => DEFAULT_MAX_CONTINUATIONS as nat,
    }
}

/// The opening move: send the caller's command unchanged, into a buffer that
/// holds the expected body and a status word.
pub open spec fn begin_spec(
    command: Seq<u8>,
    expected_data_length: u32,
    max_continuations: Option<u32>,
) -> ProgressView {
    ProgressView::Send {
        state: TransceiverView::AwaitingResponse {
            max_continuations: continuation_limit(max_continuations),
        },
        command,
        capacity: (expected_data_length + 2) as nat,
    }
}

/// What follows once `data` is assembled and the card's latest status word is
/// `sw1 sw2`, with `count` continuations complete. On `61 xx` with bytes
/// outstanding and the limit not reached, a GET RESPONSE for them; otherwise
/// the transaction ends with that status word.
pub open spec fn after_status(data: Seq<u8>, sw1: u8, sw2: u8, count: nat, max: nat) -> ProgressView {
    if sw1 == SW1_MORE_DATA && sw2 > 0 && count < max {
        ProgressView::Send {
            state: TransceiverView::Chaining {
                data,
                remaining: sw2,
                count,
                max_continuations: max,
            },
            command: get_response(sw2 as nat),
            capacity: get_response_capacity(sw2 as nat),
        }
    } else {
        ProgressView::Done(TransmitResultView { data, sw1, sw2 })
    }
}

/// The transceiver's rule: from a state and the transport's reply to what
/// happens next.
///
/// Before any response, a transport failure fails the transaction, and a
/// response is split and judged by its status word. While chaining, a
/// transport failure or a reply without a status word ends the transaction
/// with what was assembled and the last `61 xx`; `90 00` appends the reply's
/// body and ends; `61 xx` appends and counts one continuation; any other
/// status word ends without appending and is returned as it is.
pub open spec fn step_spec(state: TransceiverView, reply: ReplyView) -> ProgressView {
    match state {
        TransceiverView::AwaitingResponse { max_continuations } => match reply {
            ReplyView::Failed(message) => ProgressView::Failed(
                TransmitErrorView::Transport(message),
            ),
            ReplyView::Received(bytes) => after_status(
                body_of(bytes),
                sw1_of(bytes),
                sw2_of(bytes),
                0,
                max_continuations,
            ),
        },
        TransceiverView::Chaining { data, remaining, count, max_continuations } => {
            let stalled = ProgressView::Done(
                TransmitResultView { data, sw1: SW1_MORE_DATA, sw2: remaining },
            );
            match reply {
                ReplyView::Failed(_) => stalled,
                ReplyView::Received(bytes) => if !has_status(bytes) {
                    stalled
                } else if sw1_of(bytes) == SW1_SUCCESS && sw2_of(bytes) == 0 {
                    ProgressView::Done(
                        TransmitResultView {
                            data: data + body_of(bytes),
                            sw1: SW1_SUCCESS,
                            sw2: 0,
                        },
                    )
                } else if sw1_of(bytes) == SW1_MORE_DATA {
                    after_status(
                        data + body_of(bytes),
                        SW1_MORE_DATA,
                        sw2_of(bytes),
                        count + 1,
                        max_continuations,
                    )
                } else {
                    ProgressView::Done(
                        TransmitResultView { data, sw1: sw1_of(bytes), sw2: sw2_of(bytes) },
                    )
                },
            }
        },
    }
}

fn proceed(data: Vec<u8>, sw1: u8, sw2: u8, count: u32, max: u32) -> (p: Progress)
    ensures
        p@ == after_status(data@, sw1, sw2, count as nat, max as nat),
        p@.wf(),
{
    if sw1 == SW1_MORE_DATA && sw2 > 0 && count < max {
        let command = get_response_command(sw2 as usize);
        let capacity: u64 = sw2 as u64 + 2;
        Progress::Send {
            state: Transceiver::Chaining { data, remaining: sw2, count, max_continuations: max },
            command,
            capacity,
        }
    } else {
        Progress::Done(TransmitResult { data, sw1, sw2 })
    }
}

impl Transceiver {
    /// Opens a transaction for `command`, expecting up to
    /// `expected_data_length` body bytes, with at most `max_continuations`
    /// GET RESPONSE commands (three where none is given).
    pub fn begin(command: Vec<u8>, expected_data_length: u32, max_continuations: Option<u32>) -> (p:
        Progress)
        ensures
            p@ == begin_spec(command@, expected_data_length, max_continuations),
            p@.wf(),
    {
        let limit: u32 = match max_continuations {
            Some(m) => m,
            None => DEFAULT_MAX_CONTINUATIONS,
        };
        Progress::Send {
            state: Transceiver::AwaitingResponse { max_continuations: limit },
            command,
            capacity: expected_data_length as u64 + 2,
        }
    }

    /// Takes the transport's reply to the command last asked for and decides
    /// what happens next.
    pub fn step(self, reply: Reply) -> (p: Progress)
        ensures
            p@ == step_spec(self@, reply@),
            p@.wf(),
    {
        match self {
            Transceiver::AwaitingResponse { max_continuations } => match reply {
                Reply::Failed(message) => Progress::Failed(TransmitError::Transport(message)),
                Reply::Received(bytes) => {
                    let first = split_response(bytes.as_slice());
                    proceed(first.data, first.sw1, first.sw2, 0, max_continuations)
                },
            },
            Transceiver::Chaining { data, remaining, count, max_continuations } => match reply {
                Reply::Failed(_) => Progress::Done(
                    TransmitResult { data, sw1: SW1_MORE_DATA, sw2: remaining },
                ),
                Reply::Received(bytes) => {
                    let len = bytes.len();
                    if len < 2 {
                        Progress::Done(TransmitResult { data, sw1: SW1_MORE_DATA, sw2: remaining })
                    } else {
                        let sw1 = bytes[len - 2];
                        let sw2 = bytes[len - 1];
                        if sw1 == SW1_SUCCESS && sw2 == 0 {
                            let mut data = data;
                            append_prefix(&mut data, bytes.as_slice(), len - 2);
                            Progress::Done(TransmitResult { data, sw1, sw2 })
                        } else if sw1 == SW1_MORE_DATA {
                            let mut data = data;
                            append_prefix(&mut data, bytes.as_slice(), len - 2);
                            if count < max_continuations {
                                proceed(data, sw1, sw2, count + 1, max_continuations)
                            } else {
                                Progress::Done(TransmitResult { data, sw1, sw2 })
                            }
                        } else {
                            Progress::Done(TransmitResult { data, sw1, sw2 })
                        }
                    }
                },
            },
        }
    }
}

} // verus!
