use vstd::prelude::*;

verus! {

/// The fully assembled answer of one transaction: the response body and the
/// last status word that the card reported.
#[derive(Clone, Debug, PartialEq, Eq)]
pub struct TransmitResult {
    pub data: Vec<u8>,
    pub sw1: u8,
    pub sw2: u8,
}

/// What a [`TransmitResult`] is: the body as a sequence, and the status word.
pub struct TransmitResultView {
    pub data: Seq<u8>,
    pub sw1: u8,
    pub sw2: u8,
}

impl View for TransmitResult {
    type V = TransmitResultView;

    open spec fn view(&self) -> TransmitResultView {
        TransmitResultView { data: self.data@, sw1: self.sw1, sw2: self.sw2 }
    }
}

impl TransmitResultView {
    /// The card reported unconditional success, `90 00`.
    pub open spec fn is_success(self) -> bool {
        self.sw1 == 0x90 && self.sw2 == 0x00
    }

    /// The card reported that more bytes are available, `61 xx`.
    pub open spec fn is_continuation(self) -> bool {
        self.sw1 == 0x61
    }
}

impl TransmitResult {
    /// Whether the status word is `90 00`.
    pub fn is_success(&self) -> (r: bool)
        ensures
            r == self@.is_success(),
    {
        self.sw1 == 0x90 && self.sw2 == 0x00
    }

    /// Whether the status word is `61 xx`.
    pub fn is_continuation(&self) -> (r: bool)
        ensures
            r == self@.is_continuation(),
    {
        self.sw1 == 0x61
    }
}

/// Why a transaction produced no result.
#[derive(Clone, Debug, PartialEq, Eq)]
pub enum TransmitError {
    /// The send/receive call to the card failed; the text is the driver's.
    Transport(String),
    /// Exclusive access to the card handle could not be acquired.
    Lock(String),
    /// No attempt was permitted at all.
    NoAttempt,
}

pub enum TransmitErrorView {
    Transport(Seq<char>),
    Lock(Seq<char>),
    NoAttempt,
}

impl View for TransmitError {
    type V = TransmitErrorView;

    open spec fn view(&self) -> TransmitErrorView {
        match self {
            TransmitError::Transport(m) => TransmitErrorView::Transport(m@),
            TransmitError::Lock(m) => TransmitErrorView::Lock(m@),
            TransmitError::NoAttempt => TransmitErrorView::NoAttempt,
        }
    }
}

impl TransmitErrorView {
    /// A failure to acquire the card handle, which no retry can mend.
    pub open spec fn is_lock(self) -> bool {
        self is Lock
    }

    /// The text that describes the error.
    pub open spec fn message(self) -> Seq<char> {
        match self {
            TransmitErrorView::Transport(m) => m,
            TransmitErrorView::Lock(m) => m,
            TransmitErrorView::NoAttempt => "Failed to transmit APDU after retries"@,
        }
    }
}

impl TransmitError {
    /// Whether the error is a failure to acquire the card handle.
    pub fn is_lock(&self) -> (r: bool)
        ensures
            r == self@.is_lock(),
    {
        match self {
            TransmitError::Lock(_) => true,
            _ => false,
        }
    }

    /// The text that describes the error: the driver's or the guard's own
    /// words, or a fixed sentence where no attempt was permitted.
    pub fn message(&self) -> (text: String)
        ensures
            text@ == self@.message(),
    {
        match self {
            TransmitError::Transport(m) => m.clone(),
            TransmitError::Lock(m) => m.clone(),
            TransmitError::NoAttempt => "Failed to transmit APDU after retries".to_owned(),
        }
    }
}

/// What the transport handed back for one command.
#[derive(Clone, Debug, PartialEq, Eq)]
pub enum Reply {
    /// The bytes that the card wrote, status word included.
    Received(Vec<u8>),
    /// The send/receive call itself failed.
    Failed(String),
}

pub enum ReplyView {
    Received(Seq<u8>),
    Failed(Seq<char>),
}

impl View for Reply {
    type V = ReplyView;

    open spec fn view(&self) -> ReplyView {
        match self {
            Reply::Received(bytes) => ReplyView::Received(bytes@),
            Reply::Failed(m) => ReplyView::Failed(m@),
        }
    }
}

/// A snapshot of what a reader reports about the card in it.
#[derive(Clone, Debug, PartialEq, Eq)]
pub struct CardStatus {
    pub present: bool,
    pub empty: bool,
    pub mute: bool,
    pub atr: Option<Vec<u8>>,
}

impl CardStatus {
    /// The answer-to-reset as a sequence, empty where there is none.
    pub open spec fn atr_bytes(&self) -> Seq<u8> {
        match self.atr {
            Some(a) => a@,
            None => Seq::empty(),
        }
    }

    /// A snapshot from the three state flags and the raw answer-to-reset.
    /// An empty answer-to-reset is recorded as absent.
    pub fn from_flags(present: bool, empty: bool, mute: bool, atr: Vec<u8>) -> (s: CardStatus)
        ensures
            s.present == present,
            s.empty == empty,
            s.mute == mute,
            s.atr is Some <==> atr@.len() > 0,
            s.atr_bytes() == atr@,
    {
        if atr.len() == 0 {
            CardStatus { present, empty, mute, atr: None }
        } else {
            CardStatus { present, empty, mute, atr: Some(atr) }
        }
    }

    /// A snapshot from the three state flags alone, as a reader gives it
    /// without a connection to the card.
    pub fn without_atr(present: bool, empty: bool, mute: bool) -> (s: CardStatus)
        ensures
            s.present == present,
            s.empty == empty,
            s.mute == mute,
            s.atr is None,
    {
        CardStatus { present, empty, mute, atr: None }
    }
}

} // verus!
