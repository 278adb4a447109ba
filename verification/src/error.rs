//! Errors of the card protocol layer.
use vstd::prelude::*;

verus! {

/// Why no session with the reader could be set up or kept.
#[derive(Clone, Copy, Debug, PartialEq, Eq, Structural)]
pub enum TransportError {
    /// The smartcard subsystem could not be reached.
    Context,
    /// The subsystem knows of no reader.
    NoReaders,
    /// The reader name cannot be handed to the subsystem.
    ReaderName,
    /// No card or no such reader: the connection was refused.
    Connect,
    /// An exchange with the card did not complete.
    Transmit,
}

/// A failure reported by the card, or a reply that breaks the protocol.
#[derive(Clone, Copy, Debug, PartialEq, Eq, Structural)]
pub enum ProtocolError {
    /// Status `69 82`: the operation needs a verified PIN.
    PinRequired,
    /// Status `69 84`: the PIN retries are used up.
    CardLocked,
    /// Status `6A 84`: the card has no room for the data.
    StorageFull,
    /// Status `6A 82` in reply to SELECT: the application is not on the card.
    ApplicationNotFound,
    /// Any other status word, kept as its two bytes.
    Generic(u8, u8),
    /// A reply of fewer than two bytes, which carries no status word.
    ShortResponse,
    /// A status header shorter than its fixed part.
    InvalidStatus,
}

/// Every failure an operation can end with.
#[derive(Clone, Copy, Debug, PartialEq, Eq, Structural)]
pub enum CardError {
    Transport(TransportError),
    Protocol(ProtocolError),
    /// Card content that is not UTF-8, or items that cannot be serialized.
    Encoding,
    /// The items need `size` bytes, more than the card holds.
    CapacityExceeded { size: usize },
    /// An item index at or past the number of items on the card.
    Range { index: usize, count: usize },
    /// A PIN whose length is outside the accepted range.
    Validation,
    /// The card kept sending chunks past the safety bound.
    CorruptedData,
    /// The card holds nothing to read.
    NoData,
}

} // verus!
