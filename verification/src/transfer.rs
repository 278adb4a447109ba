//! Moving a payload that does not fit in one APDU: the store sequence that
//! writes it, the status header that announces it, and the chunk-by-chunk
//! assembly that reads it back.
use vstd::prelude::*;
use vstd::slice::slice_subrange;
use vstd::string::StringSliceAdditionalSpecFns;
use vstd::utf8::encode_utf8;
use crate::apdu::{
    append_bytes, command_apdu, command_frame, CLA, INS_ERASE_DATA, INS_GET_STATUS, INS_READ_DATA,
    INS_SET_LABEL, INS_SET_TYPE, INS_STORE_DATA,
};
use crate::error::{CardError, ProtocolError};
use crate::text::{lossy_text, text_from_utf8_lossy};

verus! {

/// Most bytes that one store command carries.
pub const CHUNK_SIZE: usize = 240;

/// Most bytes of a label that the card keeps.
pub const MAX_LABEL: usize = 64;

/// Most chunks that one read accepts.
pub const MAX_CHUNKS: usize = 100;

/// The view of a list of framed commands: the bytes of each.
pub open spec fn frames(cmds: Seq<Vec<u8>>) -> Seq<Seq<u8>> {
    cmds.map_values(|c: Vec<u8>| c@)
}

/// The bytes of a label as they are sent: its UTF-8 encoding, cut after
/// 64 bytes.
pub open spec fn label_payload(label: Seq<char>) -> Seq<u8> {
    let bytes = encode_utf8(label);
    if bytes.len() > 64 {
        bytes.subrange(0, 64)
    } else {
        bytes
    }
}

/// Number of chunks that a payload of `len` bytes is split into.
pub open spec fn chunk_count(len: nat) -> nat {
    ((len + 239) / 240) as nat
}

/// Chunk `i` of a payload: bytes `240 * i` up to `240 * (i + 1)`, or up to
/// the end for the last chunk.  Past the payload it is empty.
pub open spec fn chunk_of(data: Seq<u8>, i: int) -> Seq<u8> {
    if 0 <= i && 240 * i < data.len() {
        data.subrange(240 * i, if 240 * i + 240 < data.len() { 240 * i + 240 } else { data.len() as int })
    } else {
        Seq::empty()
    }
}

/// The store command for chunk `i`: the first parameter byte is the chunk
/// index, the second is 1 on the last chunk and 0 before it.
pub open spec fn store_frame(data: Seq<u8>, i: int) -> Seq<u8> {
    command_frame(
        CLA,
        INS_STORE_DATA,
        (i % 256) as u8,
        if i == chunk_count(data.len()) - 1 { 1u8 } else { 0u8 },
        chunk_of(data, i),
    )
}

pub open spec fn erase_frame() -> Seq<u8> {
    command_frame(CLA, INS_ERASE_DATA, 0, 0, Seq::empty())
}

pub open spec fn get_status_frame() -> Seq<u8> {
    command_frame(CLA, INS_GET_STATUS, 0, 0, Seq::empty())
}

pub open spec fn read_frame(index: nat) -> Seq<u8> {
    command_frame(CLA, INS_READ_DATA, (index % 256) as u8, 0, Seq::empty())
}

/// The commands that set the type and, for a label that is not empty, the
/// label.
pub open spec fn describe_frames(data_type: u8, label: Seq<char>) -> Seq<Seq<u8>> {
    let set_type = seq![command_frame(CLA, INS_SET_TYPE, data_type, 0, Seq::empty())];
    if label_payload(label).len() > 0 {
        set_type.push(command_frame(CLA, INS_SET_LABEL, 0, 0, label_payload(label)))
    } else {
        set_type
    }
}

/// The whole store sequence, in the order in which it is sent: erase, set
/// type, set label, then one store command per chunk.
pub open spec fn write_frames(data: Seq<u8>, data_type: u8, label: Seq<char>) -> Seq<Seq<u8>> {
    seq![erase_frame()] + describe_frames(data_type, label) + Seq::new(
        chunk_count(data.len()),
        |i: int| store_frame(data, i),
    )
}

/// The ERASE_DATA command.
pub fn erase_apdu() -> (cmd: Vec<u8>)
    ensures
        cmd@ == erase_frame(),
{
    let none: Vec<u8> = Vec::new();
    command_apdu(CLA, INS_ERASE_DATA, 0x00, 0x00, none.as_slice())
}

/// The GET_STATUS command.
pub fn get_status_apdu() -> (cmd: Vec<u8>)
    ensures
        cmd@ == get_status_frame(),
{
    let none: Vec<u8> = Vec::new();
    command_apdu(CLA, INS_GET_STATUS, 0x00, 0x00, none.as_slice())
}

/// Plans the writing of a payload with its type byte and label.  The host
/// sends the commands in order and stops at the first one that fails; the
/// card is then left erased or partly written.
pub fn write_data_to_card(data: &[u8], data_type: u8, label: &str) -> (cmds: Vec<Vec<u8>>)
    ensures
        frames(cmds@) == write_frames(data@, data_type, label@),
{
    let none: Vec<u8> = Vec::new();
    let mut cmds: Vec<Vec<u8>> = Vec::new();
    cmds.push(erase_apdu());
    cmds.push(command_apdu(CLA, INS_SET_TYPE, data_type, 0x00, none.as_slice()));
    let label_bytes = label.as_bytes();
    let kept: usize = if label_bytes.len() > MAX_LABEL {
        MAX_LABEL
    } else {
        label_bytes.len()
    };
    if kept > 0 {
        let sent = slice_subrange(label_bytes, 0, kept);
        assert(sent@ == label_payload(label@));
        cmds.push(command_apdu(CLA, INS_SET_LABEL, 0x00, 0x00, sent));
    }
    let ghost head = seq![erase_frame()] + describe_frames(data_type, label@);
    let total: usize = data.len();
    let mut offset: usize = 0;
    let mut i: usize = 0;
    while offset < total
        invariant
            total == data.len(),
            offset == if 240 * i < total { 240 * i } else { total as int },
            i <= chunk_count(total as nat),
            frames(cmds@) == head + Seq::new(i as nat, |k: int| store_frame(data@, k)),
        decreases chunk_count(total as nat) - i,
    {
        let end: usize = if total - offset > CHUNK_SIZE {
            offset + CHUNK_SIZE
        } else {
            total
        };
        let last: u8 = if end == total {
            0x01
        } else {
            0x00
        };
        let p1: u8 = (i % 256) as u8;
        let chunk = slice_subrange(data, offset, end);
        let cmd = command_apdu(CLA, INS_STORE_DATA, p1, last, chunk);
        let ghost before = cmds@;
        cmds.push(cmd);
        assert(frames(cmds@) == frames(before).push(cmd@));
        offset = end;
        i += 1;
    }
    cmds
}

/// What a status header says, with the label as text.
pub struct StatusHeader {
    pub data_length: u16,
    pub data_type: u8,
    pub pin_set: bool,
    pub pin_verified: bool,
    pub pin_retries: u8,
    pub label: String,
}

pub struct StatusHeaderView {
    pub data_length: nat,
    pub data_type: u8,
    pub pin_set: bool,
    pub pin_verified: bool,
    pub pin_retries: u8,
    pub label: Seq<char>,
}

impl View for StatusHeader {
    type V = StatusHeaderView;

    open spec fn view(&self) -> StatusHeaderView {
        StatusHeaderView {
            data_length: self.data_length as nat,
            data_type: self.data_type,
            pin_set: self.pin_set,
            pin_verified: self.pin_verified,
            pin_retries: self.pin_retries,
            label: self.label@,
        }
    }
}

/// The label of a status reply: the bytes after the label length at index
/// 6, read leniently as text, when the reply is long enough to hold that
/// many; empty otherwise.
pub open spec fn header_label(resp: Seq<u8>) -> Seq<char> {
    if resp.len() >= 7 && resp[6] > 0 && resp.len() >= 7 + resp[6] {
        lossy_text(resp.subrange(7, 7 + resp[6]))
    } else {
        Seq::empty()
    }
}

/// The reading of a status reply of at least six bytes:
/// `lenHi lenLo type pinSet pinVerified pinRetries [labelLen label..]`.
pub open spec fn header_of(resp: Seq<u8>) -> StatusHeaderView {
    StatusHeaderView {
        data_length: (resp[0] * 256 + resp[1]) as nat,
        data_type: resp[2],
        pin_set: resp[3] == 1,
        pin_verified: resp[4] == 1,
        pin_retries: resp[5],
        label: header_label(resp),
    }
}

/// Reads the payload of a GET_STATUS reply.  It fails, with
/// `InvalidStatus`, exactly on a payload of fewer than six bytes.
pub fn parse_status(resp: &[u8]) -> (r: Result<StatusHeader, CardError>)
    ensures
        match r {
            Ok(h) => resp@.len() >= 6 && h@ == header_of(resp@),
            Err(e) => resp@.len() < 6 && e == CardError::Protocol(ProtocolError::InvalidStatus),
        },
{
    if resp.len() < 6 {
        return Err(CardError::Protocol(ProtocolError::InvalidStatus));
    }
    let hi: u16 = resp[0] as u16;
    let lo: u16 = resp[1] as u16;
    let mut label = String::new();
    if resp.len() >= 7 {
        let n: usize = resp[6] as usize;
        if n > 0 && resp.len() - 7 >= n {
            label = text_from_utf8_lossy(slice_subrange(resp, 7, 7 + n));
        }
    }
    Ok(
        StatusHeader {
            data_length: hi * 256 + lo,
            data_type: resp[2],
            pin_set: resp[3] == 0x01,
            pin_verified: resp[4] == 0x01,
            pin_retries: resp[5],
            label,
        },
    )
}

/// How far the reading of a payload has come.
pub struct ReadProgress {
    /// Length that the status header declared.
    pub declared: usize,
    /// Index of the next chunk to ask for.
    pub index: usize,
    /// The chunks received so far, joined.
    pub collected: Vec<u8>,
    /// Whether the card answered with an empty chunk.
    pub stopped: bool,
}

pub struct ReadState {
    pub declared: nat,
    pub index: nat,
    pub collected: Seq<u8>,
    pub stopped: bool,
}

impl View for ReadProgress {
    type V = ReadState;

    open spec fn view(&self) -> ReadState {
        ReadState {
            declared: self.declared as nat,
            index: self.index as nat,
            collected: self.collected@,
            stopped: self.stopped,
        }
    }
}

impl ReadState {
    /// The state before the first chunk.
    pub open spec fn start(declared: nat) -> ReadState {
        ReadState { declared, index: 0, collected: Seq::empty(), stopped: false }
    }

    /// Whether another chunk is to be fetched: the declared length is not
    /// reached and the card has not answered with an empty chunk.
    pub open spec fn wants_chunk(self) -> bool {
        !self.stopped && self.collected.len() < self.declared
    }

    /// The state after the card answered with `chunk`.  An empty chunk ends
    /// the reading.  The 101st chunk that is not empty is an error, whether
    /// or not it completes the payload.
    pub open spec fn after_chunk(self, chunk: Seq<u8>) -> Result<ReadState, CardError> {
        if chunk.len() == 0 {
            Ok(ReadState { stopped: true, ..self })
        } else if self.index >= 100 {
            Err(CardError::CorruptedData)
        } else {
            Ok(ReadState { index: self.index + 1, collected: self.collected + chunk, ..self })
        }
    }

    /// The payload once no chunk is wanted: what was collected, cut to the
    /// declared length.
    pub open spec fn payload(self) -> Seq<u8> {
        if self.collected.len() > self.declared {
            self.collected.subrange(0, self.declared as int)
        } else {
            self.collected
        }
    }

    /// The whole reading against a card that answers the request for chunk
    /// `i` with `source(i)`.
    pub open spec fn read_through(self, source: spec_fn(int) -> Seq<u8>) -> Result<
        Seq<u8>,
        CardError,
    >
        decreases
            (if self.wants_chunk() {
                1nat
            } else {
                0nat
            }),
            100 - self.index,
    {
        if !self.wants_chunk() {
            Ok(self.payload())
        } else {
            match self.after_chunk(source(self.index as int)) {
                Err(e) => Err(e),
                Ok(next) => next.read_through(source),
            }
        }
    }
}

impl ReadProgress {
    /// Starts the reading of a payload of the declared length.
    pub fn new(declared: u16) -> (p: ReadProgress)
        ensures
            p@ == ReadState::start(declared as nat),
    {
        ReadProgress { declared: declared as usize, index: 0, collected: Vec::new(), stopped: false }
    }

    /// Whether another chunk is to be fetched.
    pub fn wants_chunk(&self) -> (b: bool)
        ensures
            b == self@.wants_chunk(),
    {
        !self.stopped && self.collected.len() < self.declared
    }

    /// The READ_DATA command for the next chunk.
    pub fn next_command(&self) -> (cmd: Vec<u8>)
        ensures
            cmd@ == read_frame(self@.index),
    {
        let none: Vec<u8> = Vec::new();
        command_apdu(CLA, INS_READ_DATA, (self.index % 256) as u8, 0x00, none.as_slice())
    }

    /// Takes in the chunk that the card sent for the last request.
    pub fn accept_chunk(self, chunk: &[u8]) -> (r: Result<ReadProgress, CardError>)
        ensures
            match r {
                Ok(p) => self@.after_chunk(chunk@) == Ok::<ReadState, CardError>(p@),
                Err(e) => self@.after_chunk(chunk@) == Err::<ReadState, CardError>(e),
            },
    {
        if chunk.len() == 0 {
            Ok(ReadProgress { stopped: true, ..self })
        } else if self.index >= MAX_CHUNKS {
            Err(CardError::CorruptedData)
        } else {
            let mut collected = self.collected;
            append_bytes(&mut collected, chunk);
            Ok(
                ReadProgress {
                    declared: self.declared,
                    index: self.index + 1,
                    collected,
                    stopped: self.stopped,
                },
            )
        }
    }

    /// Ends the reading and hands out the payload.
    pub fn into_payload(self) -> (data: Vec<u8>)
        ensures
            data@ == self@.payload(),
    {
        let mut data = self.collected;
        data.truncate(self.declared);
        data
    }
}

/// A card that holds `data` as it was stored: asked for chunk `i`, it
/// answers with the payload of the store command `i`.
pub open spec fn stored_chunks(data: Seq<u8>) -> spec_fn(int) -> Seq<u8> {
    |i: int| chunk_of(data, i)
}

proof fn lemma_read_rest(data: Seq<u8>, s: ReadState)
    requires
        data.len() <= 24000,
        s.declared == data.len(),
        !s.stopped,
        s.index <= chunk_count(data.len()),
        s.collected == data.subrange(
            0,
            if 240 * s.index < data.len() {
                (240 * s.index) as int
            } else {
                data.len() as int
            },
        ),
    ensures
        s.read_through(stored_chunks(data)) == Ok::<Seq<u8>, CardError>(data),
    decreases chunk_count(data.len()) - s.index,
{
    if s.wants_chunk() {
        let chunk = stored_chunks(data)(s.index as int);
        let next = ReadState { index: s.index + 1, collected: s.collected + chunk, ..s };
        assert(next.collected =~= data.subrange(
            0,
            if 240 * next.index < data.len() {
                (240 * next.index) as int
            } else {
                data.len() as int
            },
        ));
        lemma_read_rest(data, next);
    } else {
        assert(s.collected =~= data);
    }
}

/// Writing, then reading: a card that holds the chunks of a payload and
/// declares its length hands the reader the same bytes again.  This holds
/// of every payload of at most 100 chunks, so of every one that fits the
/// card, whether or not its length is a multiple of the chunk size.
pub proof fn lemma_read_back(data: Seq<u8>)
    requires
        data.len() <= 100 * 240,
    ensures
        ReadState::start(data.len()).read_through(stored_chunks(data)) == Ok::<
            Seq<u8>,
            CardError,
        >(data),
{
    assert(ReadState::start(data.len()).collected =~= data.subrange(0, 0));
    lemma_read_rest(data, ReadState::start(data.len()));
}

/// The chunks of a payload, joined from chunk `from` on.
pub open spec fn joined_chunks(data: Seq<u8>, from: int) -> Seq<u8>
    decreases chunk_count(data.len()) - from,
{
    if 0 <= from < chunk_count(data.len()) {
        chunk_of(data, from) + joined_chunks(data, from + 1)
    } else {
        Seq::empty()
    }
}

/// Splitting loses nothing: no chunk is longer than 240 bytes, none but
/// the last is shorter, and the chunks joined in order are the payload.
pub proof fn lemma_chunks_cover(data: Seq<u8>, from: int)
    requires
        0 <= from <= chunk_count(data.len()),
    ensures
        joined_chunks(data, from) == data.subrange(
            if 240 * from < data.len() {
                240 * from
            } else {
                data.len() as int
            },
            data.len() as int,
        ),
        forall|i: int| chunk_of(data, i).len() <= 240,
        forall|i: int| 0 <= i < chunk_count(data.len()) - 1 ==> chunk_of(data, i).len() == 240,
    decreases chunk_count(data.len()) - from,
{
    if from < chunk_count(data.len()) {
        lemma_chunks_cover(data, from + 1);
    }
}

/// Label truncation: the card is sent at most 64 bytes of a label, and of
/// a label of more than 64 bytes exactly the first 64.
pub proof fn lemma_label_cut(label: Seq<char>)
    ensures
        label_payload(label).len() <= 64,
        encode_utf8(label).len() > 64 ==> label_payload(label).len() == 64 && label_payload(label)
            == encode_utf8(label).subrange(0, 64),
        encode_utf8(label).len() <= 64 ==> label_payload(label) == encode_utf8(label),
{
}

/// The reading is bounded: each chunk that is taken in and is not empty
/// raises the index by one, the index never passes 100, and so no reading
/// takes in more than 100 chunks.
pub proof fn lemma_read_bound(s: ReadState, chunk: Seq<u8>)
    ensures
        match s.after_chunk(chunk) {
            Ok(next) => {
                &&& next.declared == s.declared
                &&& if chunk.len() == 0 {
                    next.stopped && !next.wants_chunk() && next.collected == s.collected
                } else {
                    next.index == s.index + 1 && next.index <= 100 && next.collected == s.collected
                        + chunk
                }
            },
            Err(e) => e == CardError::CorruptedData && chunk.len() > 0 && s.index >= 100,
        },
{
}

} // verus!
