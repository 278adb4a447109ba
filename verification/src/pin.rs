//! PIN commands.  A PIN travels as the bytes of its text.  The card
//! forgets a verified PIN when the application is selected again, so the
//! command goes out in the same session as the operation it protects.
use vstd::prelude::*;
use vstd::string::StringSliceAdditionalSpecFns;
use vstd::utf8::encode_utf8;
use crate::apdu::{
    append_bytes, command_apdu, command_frame, CLA, INS_CHANGE_PIN, INS_SET_PIN, INS_VERIFY_PIN,
};
use crate::error::CardError;

verus! {

/// Fewest bytes of a PIN that can be set.
pub const MIN_PIN: usize = 8;

/// Most bytes of a PIN that can be set.
pub const MAX_PIN: usize = 16;

/// Whether a PIN can be set: it has 8 to 16 bytes.
pub open spec fn pin_accepted(pin: Seq<char>) -> bool {
    8 <= encode_utf8(pin).len() <= 16
}

pub open spec fn verify_frame(pin: Seq<char>) -> Seq<u8> {
    command_frame(CLA, INS_VERIFY_PIN, 0, 0, encode_utf8(pin))
}

/// The verification that goes before a protected operation: none without
/// a PIN and none for an empty one.
pub open spec fn needed_verify(pin: Option<Seq<char>>) -> Option<Seq<u8>> {
    match pin {
        Some(p) => if p.len() > 0 {
            Some(verify_frame(p))
        } else {
            None
        },
        None => None,
    }
}

/// The SET_PIN command, refused for a PIN of a length that cannot be set.
pub open spec fn set_pin_frame(pin: Seq<char>) -> Result<Seq<u8>, CardError> {
    if pin_accepted(pin) {
        Ok(command_frame(CLA, INS_SET_PIN, 0, 0, encode_utf8(pin)))
    } else {
        Err(CardError::Validation)
    }
}

/// The CHANGE_PIN command, refused for a new PIN of a length that cannot
/// be set.  Its data is the old PIN followed by the new one; the first
/// parameter byte holds the length of the old one, so that the card can
/// part them.
pub open spec fn change_pin_frame(old_pin: Seq<char>, new_pin: Seq<char>) -> Result<
    Seq<u8>,
    CardError,
> {
    if pin_accepted(new_pin) {
        Ok(
            command_frame(
                CLA,
                INS_CHANGE_PIN,
                (encode_utf8(old_pin).len() % 256) as u8,
                0,
                encode_utf8(old_pin) + encode_utf8(new_pin),
            ),
        )
    } else {
        Err(CardError::Validation)
    }
}

/// Checks the length of a PIN that is to be set.
pub fn check_pin(pin: &str) -> (ok: bool)
    ensures
        ok == pin_accepted(pin@),
{
    let n: usize = pin.as_bytes().len();
    MIN_PIN <= n && n <= MAX_PIN
}

/// The VERIFY_PIN command for a PIN.
pub fn verify_pin_apdu(pin: &str) -> (cmd: Vec<u8>)
    ensures
        cmd@ == verify_frame(pin@),
{
    command_apdu(CLA, INS_VERIFY_PIN, 0x00, 0x00, pin.as_bytes())
}

/// The VERIFY_PIN command to send before a protected operation, if a PIN
/// was given and is not empty.
pub fn verify_pin_if_needed(pin: &Option<String>) -> (cmd: Option<Vec<u8>>)
    ensures
        match cmd {
            Some(c) => pin is Some && needed_verify(Some(pin->0@)) == Some(c@),
            None => pin is None || needed_verify(Some(pin->0@)) is None,
        },
{
    match pin {
        Some(p) => {
            if !p.as_str().is_empty() {
                Some(verify_pin_apdu(p.as_str()))
            } else {
                None
            }
        },
        None => None,
    }
}

/// The SET_PIN command.  The card accepts it only while it has no PIN.
pub fn set_pin_apdu(pin: &str) -> (r: Result<Vec<u8>, CardError>)
    ensures
        match r {
            Ok(cmd) => set_pin_frame(pin@) == Ok::<Seq<u8>, CardError>(cmd@),
            Err(e) => set_pin_frame(pin@) == Err::<Seq<u8>, CardError>(e),
        },
{
    if !check_pin(pin) {
        return Err(CardError::Validation);
    }
    Ok(command_apdu(CLA, INS_SET_PIN, 0x00, 0x00, pin.as_bytes()))
}

/// The CHANGE_PIN command.
pub fn change_pin_apdu(old_pin: &str, new_pin: &str) -> (r: Result<Vec<u8>, CardError>)
    ensures
        match r {
            Ok(cmd) => change_pin_frame(old_pin@, new_pin@) == Ok::<Seq<u8>, CardError>(cmd@),
            Err(e) => change_pin_frame(old_pin@, new_pin@) == Err::<Seq<u8>, CardError>(e),
        },
{
    if !check_pin(new_pin) {
        return Err(CardError::Validation);
    }
    let old_bytes = old_pin.as_bytes();
    let mut data: Vec<u8> = Vec::new();
    append_bytes(&mut data, old_bytes);
    append_bytes(&mut data, new_pin.as_bytes());
    Ok(command_apdu(CLA, INS_CHANGE_PIN, (old_bytes.len() % 256) as u8, 0x00, data.as_slice()))
}

} // verus!
