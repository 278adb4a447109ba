//! Command framing and status-word decoding.
use vstd::prelude::*;
use vstd::slice::slice_subrange;
use crate::error::{CardError, ProtocolError};

verus! {

/// Class byte of the proprietary commands.
pub const CLA: u8 = 0x80;

pub const INS_STORE_DATA: u8 = 0x01;

pub const INS_READ_DATA: u8 = 0x02;

pub const INS_GET_STATUS: u8 = 0x03;

pub const INS_ERASE_DATA: u8 = 0x04;

pub const INS_SET_TYPE: u8 = 0x10;

pub const INS_SET_LABEL: u8 = 0x11;

pub const INS_VERIFY_PIN: u8 = 0x20;

pub const INS_CHANGE_PIN: u8 = 0x21;

pub const INS_SET_PIN: u8 = 0x22;

/// The identifier by which the storage application is selected.
pub open spec fn application_id() -> Seq<u8> {
    seq![0xF0u8, 0x53u8, 0x51u8, 0x52u8, 0x54u8, 0x53u8, 0x01u8, 0x00u8, 0x00u8]
}

/// The bytes of a command: the four header bytes, then, only when there is
/// data, one length byte and the data.  The length byte holds the low
/// eight bits of the data length.
pub open spec fn command_frame(cla: u8, ins: u8, p1: u8, p2: u8, data: Seq<u8>) -> Seq<u8> {
    if data.len() == 0 {
        seq![cla, ins, p1, p2]
    } else {
        seq![cla, ins, p1, p2, (data.len() % 256) as u8] + data
    }
}

/// The SELECT-by-name command for the storage application.
pub open spec fn select_frame() -> Seq<u8> {
    command_frame(0x00, 0xA4, 0x04, 0x00, application_id())
}

/// Appends a copy of `src` to `dst`.
pub fn append_bytes(dst: &mut Vec<u8>, src: &[u8])
    ensures
        final(dst)@ == old(dst)@ + src@,
{
    let mut i: usize = 0;
    while i < src.len()
        invariant
            i <= src.len(),
            dst@ == old(dst)@ + src@.subrange(0, i as int),
        decreases src.len() - i,
    {
        dst.push(src[i]);
        i += 1;
    }
}

/// Frames one command APDU.
pub fn command_apdu(cla: u8, ins: u8, p1: u8, p2: u8, data: &[u8]) -> (cmd: Vec<u8>)
    ensures
        cmd@ == command_frame(cla, ins, p1, p2, data@),
{
    let mut cmd: Vec<u8> = Vec::new();
    cmd.push(cla);
    cmd.push(ins);
    cmd.push(p1);
    cmd.push(p2);
    if data.len() > 0 {
        let lc: u8 = (data.len() % 256) as u8;
        cmd.push(lc);
        append_bytes(&mut cmd, data);
    }
    cmd
}

/// Frames the SELECT command that activates the storage application.
pub fn select_apdu() -> (cmd: Vec<u8>)
    ensures
        cmd@ == select_frame(),
{
    let mut aid: Vec<u8> = Vec::new();
    aid.push(0xF0);
    aid.push(0x53);
    aid.push(0x51);
    aid.push(0x52);
    aid.push(0x54);
    aid.push(0x53);
    aid.push(0x01);
    aid.push(0x00);
    aid.push(0x00);
    command_apdu(0x00, 0xA4, 0x04, 0x00, aid.as_slice())
}

/// What a status word means.  `selecting` tells whether the word answers
/// SELECT, the only command for which `6A 82` has a meaning of its own and
/// for which the PIN and storage words have none.
pub open spec fn status_meaning(sw1: u8, sw2: u8, selecting: bool) -> Result<(), ProtocolError> {
    if sw1 == 0x90 && sw2 == 0x00 {
        Ok(())
    } else if selecting {
        if sw1 == 0x6A && sw2 == 0x82 {
            Err(ProtocolError::ApplicationNotFound)
        } else {
            Err(ProtocolError::Generic(sw1, sw2))
        }
    } else if sw1 == 0x69 && sw2 == 0x82 {
        Err(ProtocolError::PinRequired)
    } else if sw1 == 0x69 && sw2 == 0x84 {
        Err(ProtocolError::CardLocked)
    } else if sw1 == 0x6A && sw2 == 0x84 {
        Err(ProtocolError::StorageFull)
    } else {
        Err(ProtocolError::Generic(sw1, sw2))
    }
}

/// Decodes the two status bytes that end a reply.
pub fn decode_status(sw1: u8, sw2: u8, selecting: bool) -> (r: Result<(), ProtocolError>)
    ensures
        r == status_meaning(sw1, sw2, selecting),
{
    if sw1 == 0x90 && sw2 == 0x00 {
        Ok(())
    } else if selecting {
        if sw1 == 0x6A && sw2 == 0x82 {
            Err(ProtocolError::ApplicationNotFound)
        } else {
            Err(ProtocolError::Generic(sw1, sw2))
        }
    } else if sw1 == 0x69 && sw2 == 0x82 {
        Err(ProtocolError::PinRequired)
    } else if sw1 == 0x69 && sw2 == 0x84 {
        Err(ProtocolError::CardLocked)
    } else if sw1 == 0x6A && sw2 == 0x84 {
        Err(ProtocolError::StorageFull)
    } else {
        Err(ProtocolError::Generic(sw1, sw2))
    }
}

/// What a whole reply yields: its bytes before the status word when the
/// word reports success, the card's error otherwise, and `ShortResponse`
/// when there is no room for a status word.
pub open spec fn reply_meaning(resp: Seq<u8>, selecting: bool) -> Result<Seq<u8>, CardError> {
    if resp.len() < 2 {
        Err(CardError::Protocol(ProtocolError::ShortResponse))
    } else {
        match status_meaning(resp[resp.len() - 2], resp[resp.len() - 1], selecting) {
            Ok(()) => Ok(resp.subrange(0, resp.len() - 2)),
            Err(e) => Err(CardError::Protocol(e)),
        }
    }
}

/// Splits a reply into payload and status word and decodes the latter.
pub fn response_payload(resp: &[u8], selecting: bool) -> (r: Result<Vec<u8>, CardError>)
    ensures
        match r {
            Ok(data) => reply_meaning(resp@, selecting) == Ok::<Seq<u8>, CardError>(data@),
            Err(e) => reply_meaning(resp@, selecting) == Err::<Seq<u8>, CardError>(e),
        },
{
    let n: usize = resp.len();
    if n < 2 {
        return Err(CardError::Protocol(ProtocolError::ShortResponse));
    }
    match decode_status(resp[n - 2], resp[n - 1], selecting) {
        Ok(()) => {
            let mut data: Vec<u8> = Vec::new();
            append_bytes(&mut data, slice_subrange(resp, 0, n - 2));
            Ok(data)
        },
        Err(e) => Err(CardError::Protocol(e)),
    }
}

/// The status-word table: `90 00` is success; `69 82`, `69 84` and
/// `6A 84` are the PIN and storage errors of every command but SELECT;
/// `6A 82` in reply to SELECT is the missing application; every other
/// word is a generic error that carries the word.
pub proof fn lemma_status_table(sw1: u8, sw2: u8, selecting: bool)
    ensures
        status_meaning(0x90, 0x00, selecting) == Ok::<(), ProtocolError>(()),
        status_meaning(0x69, 0x82, false) == Err::<(), ProtocolError>(ProtocolError::PinRequired),
        status_meaning(0x69, 0x84, false) == Err::<(), ProtocolError>(ProtocolError::CardLocked),
        status_meaning(0x6A, 0x84, false) == Err::<(), ProtocolError>(ProtocolError::StorageFull),
        status_meaning(0x6A, 0x82, true) == Err::<(), ProtocolError>(
            ProtocolError::ApplicationNotFound,
        ),
        status_meaning(sw1, sw2, selecting) is Ok <==> sw1 == 0x90 && sw2 == 0x00,
        !(sw1 == 0x90 && sw2 == 0x00) && !(selecting && sw1 == 0x6A && sw2 == 0x82) && !(
        !selecting && (sw1 == 0x69 && (sw2 == 0x82 || sw2 == 0x84) || sw1 == 0x6A && sw2
            == 0x84)) ==> status_meaning(sw1, sw2, selecting) == Err::<(), ProtocolError>(
            ProtocolError::Generic(sw1, sw2),
        ),
{
}

} // verus!
