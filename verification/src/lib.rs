//! Host side of a PIN-gated smartcard storage protocol.
//!
//! The card holds one data slot.  This crate frames the command APDUs,
//! decodes status words, splits and reassembles payloads that do not fit
//! in one APDU, packs several labelled items into the slot, and decides,
//! exchange by exchange, what a card operation sends next.  It performs no
//! I/O itself: a host opens the reader, transmits the bytes that an
//! [`session::Command`] asks for and reports back with an
//! [`session::Event`].
pub mod apdu;
pub mod error;
pub mod items;
pub mod json;
pub mod pin;
pub mod session;
pub mod status;
pub mod text;
pub mod transfer;

pub use error::{CardError, ProtocolError, TransportError};
pub use items::CardItem;
pub use session::{
    change_pin, delete_card_item, erase_card, force_erase_card, get_card_status, list_readers,
    read_card_item, read_card_items, set_pin, verify_pin, write_item_to_card, Command, Event,
    Operation, Progress, Reply, Request,
};
pub use status::{CardItemSummary, CardStatus};
