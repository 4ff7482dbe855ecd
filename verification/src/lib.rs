//! The APDU transaction layer of a smart-card link: splitting responses into
//! body and status word, assembling chained answers with GET RESPONSE, and
//! the retry policy around whole transactions.
//!
//! The library never touches a reader itself. Each protocol is a state
//! machine: the caller performs the exchange that a step asks for and hands
//! back what the transport returned.

pub mod apdu;
pub mod reader;
pub mod retry;
pub mod session;
pub mod transaction;
pub mod transceiver;
pub mod types;

pub use reader::{find_reader, status_from_bits, Disposition, Protocol, ShareMode};
pub use retry::{Retry, RetryProgress, RetryProgressView, RetryView};
pub use transceiver::{Progress, ProgressView, Transceiver, TransceiverView};
pub use types::{
    CardStatus, Reply, ReplyView, TransmitError, TransmitErrorView, TransmitResult,
    TransmitResultView,
};
