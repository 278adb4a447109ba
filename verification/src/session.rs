//! Card operations, one exchange at a time.
//!
//! An operation never touches a reader.  It tells its host what to do next
//! (connect, transmit these bytes, disconnect with a reset) and the host
//! reports what came of it.  Every operation runs
//! connect, SELECT, optional PIN verification, its own exchanges, and the
//! disconnect; once it has connected it ends only after it has asked for
//! the disconnect, whatever failed in between.
//!
//! Writing erases the card before it stores the new content, and nothing
//! is rolled back: an operation that fails while it writes leaves the card
//! erased or partly written.  The operations of one reader must not
//! overlap; the host runs them one after the other.
use vstd::prelude::*;
use vstd::slice::slice_to_vec;
use crate::apdu::{reply_meaning, response_payload, select_apdu, select_frame};
use crate::error::{CardError, ProtocolError, TransportError};
use crate::items::{
    card_items, item_views, items_frames, parse_card_items, write_items_to_card, CardItem, ItemView,
};
use crate::pin::{
    change_pin_apdu, change_pin_frame, check_pin, needed_verify, pin_accepted, set_pin_apdu,
    set_pin_frame, verify_frame, verify_pin_apdu, verify_pin_if_needed,
};
use crate::status::{
    card_status, fallback_summaries, fallback_summary, item_at, item_summaries, items_without,
    remove_item, select_item, status_of, summaries_of, summary_views, CardStatus, StatusView,
};
use crate::transfer::{
    erase_apdu, erase_frame, frames, get_status_apdu, get_status_frame, header_of, parse_status,
    read_frame, ReadProgress, ReadState, StatusHeader, StatusHeaderView,
};

verus! {

/// What is asked of the card.
#[derive(Clone, Debug, PartialEq, Eq)]
pub enum Request {
    /// Report the state of the card and summarize its items.
    Status { pin: Option<String> },
    /// Add an item behind those that the card holds.
    Append { item: CardItem, pin: Option<String> },
    /// Read all items.
    ReadAll { pin: Option<String> },
    /// Read the item at an index.
    ReadOne { index: usize, pin: Option<String> },
    /// Delete the item at an index.
    Delete { index: usize, pin: Option<String> },
    /// Erase the card.
    Erase { pin: Option<String> },
    /// Erase the card without verifying a PIN: the way back for a card
    /// whose PIN retries are used up.
    ForceErase,
    /// Verify a PIN.
    VerifyPin { entered: String },
    /// Set the first PIN.
    SetPin { new_pin: String },
    /// Replace the PIN.
    ChangePin { old_pin: String, new_pin: String },
}

pub enum RequestView {
    Status { pin: Option<Seq<char>> },
    Append { item: ItemView, pin: Option<Seq<char>> },
    ReadAll { pin: Option<Seq<char>> },
    ReadOne { index: nat, pin: Option<Seq<char>> },
    Delete { index: nat, pin: Option<Seq<char>> },
    Erase { pin: Option<Seq<char>> },
    ForceErase,
    VerifyPin { entered: Seq<char> },
    SetPin { new_pin: Seq<char> },
    ChangePin { old_pin: Seq<char>, new_pin: Seq<char> },
}

/// The view of a PIN that may be absent.
pub open spec fn pin_view(pin: Option<String>) -> Option<Seq<char>> {
    match pin {
        Some(p) => Some(p@),
        None => None,
    }
}

impl View for Request {
    type V = RequestView;

    open spec fn view(&self) -> RequestView {
        match *self {
            Request::Status { pin } => RequestView::Status { pin: pin_view(pin) },
            Request::Append { item, pin } => RequestView::Append { item: item@, pin: pin_view(pin) },
            Request::ReadAll { pin } => RequestView::ReadAll { pin: pin_view(pin) },
            Request::ReadOne { index, pin } => RequestView::ReadOne {
                index: index as nat,
                pin: pin_view(pin),
            },
            Request::Delete { index, pin } => RequestView::Delete {
                index: index as nat,
                pin: pin_view(pin),
            },
            Request::Erase { pin } => RequestView::Erase { pin: pin_view(pin) },
            Request::ForceErase => RequestView::ForceErase,
            Request::VerifyPin { entered } => RequestView::VerifyPin { entered: entered@ },
            Request::SetPin { new_pin } => RequestView::SetPin { new_pin: new_pin@ },
            Request::ChangePin { old_pin, new_pin } => RequestView::ChangePin {
                old_pin: old_pin@,
                new_pin: new_pin@,
            },
        }
    }
}

/// What an operation that succeeded hands back.
#[derive(Clone, Debug, PartialEq, Eq)]
pub enum Reply {
    /// Nothing but the success.
    Done,
    Status(CardStatus),
    Items(Vec<CardItem>),
    Item(CardItem),
}

pub enum ReplyView {
    Done,
    Status(StatusView),
    Items(Seq<ItemView>),
    Item(ItemView),
}

impl View for Reply {
    type V = ReplyView;

    open spec fn view(&self) -> ReplyView {
        match *self {
            Reply::Done => ReplyView::Done,
            Reply::Status(status) => ReplyView::Status(status@),
            Reply::Items(items) => ReplyView::Items(item_views(items@)),
            Reply::Item(item) => ReplyView::Item(item@),
        }
    }
}

/// The view of the outcome of an operation.
pub open spec fn outcome_view(outcome: Result<Reply, CardError>) -> Result<ReplyView, CardError> {
    match outcome {
        Ok(reply) => Ok(reply@),
        Err(e) => Err(e),
    }
}

/// What the host reports.
#[derive(Clone, Debug, PartialEq, Eq)]
pub enum Event {
    /// The connection to the card stands.
    Connected,
    /// The last command of the operation could not be carried out.
    Failed(TransportError),
    /// The card's reply to the bytes that were transmitted.
    Response(Vec<u8>),
    /// The connection is closed.
    Disconnected,
}

pub enum EventView {
    Connected,
    Failed(TransportError),
    Response(Seq<u8>),
    Disconnected,
}

impl View for Event {
    type V = EventView;

    open spec fn view(&self) -> EventView {
        match *self {
            Event::Connected => EventView::Connected,
            Event::Failed(e) => EventView::Failed(e),
            Event::Response(bytes) => EventView::Response(bytes@),
            Event::Disconnected => EventView::Disconnected,
        }
    }
}

/// What the host is to do next.
#[derive(Clone, Debug, PartialEq, Eq)]
pub enum Command {
    /// Open a shared connection to the card in the reader.
    Connect,
    /// Send these bytes to the card and report its reply.
    Transmit(Vec<u8>),
    /// Close the connection and reset the card.
    Disconnect,
}

pub enum CommandView {
    Connect,
    Transmit(Seq<u8>),
    Disconnect,
}

impl View for Command {
    type V = CommandView;

    open spec fn view(&self) -> CommandView {
        match *self {
            Command::Connect => CommandView::Connect,
            Command::Transmit(bytes) => CommandView::Transmit(bytes@),
            Command::Disconnect => CommandView::Disconnect,
        }
    }
}

/// Where an operation stands: which report it waits for.
enum Stage {
    Connecting,
    Selecting,
    Verifying,
    Querying,
    Header { first: Option<StatusHeader> },
    Chunks { first: Option<StatusHeader>, header: StatusHeader, progress: ReadProgress },
    Writing { commands: Vec<Vec<u8>>, sent: usize },
    Last,
    Closing { outcome: Result<Reply, CardError> },
}

pub enum StageView {
    /// The connection was asked for.
    Connecting,
    /// SELECT was sent.
    Selecting,
    /// The PIN was sent ahead of a protected operation.
    Verifying,
    /// The status query sent its GET_STATUS.
    Querying,
    /// A read sent its GET_STATUS.  `first` is the header that a status
    /// query got before it started to read.
    Header { first: Option<StatusHeaderView> },
    /// A read asked for a chunk.
    Chunks { first: Option<StatusHeaderView>, header: StatusHeaderView, progress: ReadState },
    /// The first `sent` commands of a store sequence were sent.
    Writing { commands: Seq<Seq<u8>>, sent: nat },
    /// The command was sent whose success is that of the operation.
    Last,
    /// The disconnect was asked for; the outcome is settled.
    Closing { outcome: Result<ReplyView, CardError> },
}

/// The view of a header that may be absent.
pub open spec fn header_view(header: Option<StatusHeader>) -> Option<StatusHeaderView> {
    match header {
        Some(h) => Some(h@),
        None => None,
    }
}

impl View for Stage {
    type V = StageView;

    closed spec fn view(&self) -> StageView {
        match *self {
            Stage::Connecting => StageView::Connecting,
            Stage::Selecting => StageView::Selecting,
            Stage::Verifying => StageView::Verifying,
            Stage::Querying => StageView::Querying,
            Stage::Header { first } => StageView::Header { first: header_view(first) },
            Stage::Chunks { first, header, progress } => StageView::Chunks {
                first: header_view(first),
                header: header@,
                progress: progress@,
            },
            Stage::Writing { commands, sent } => StageView::Writing {
                commands: frames(commands@),
                sent: sent as nat,
            },
            Stage::Last => StageView::Last,
            Stage::Closing { outcome } => StageView::Closing { outcome: outcome_view(outcome) },
        }
    }
}

/// An operation under way.
pub struct Operation {
    request: Request,
    stage: Stage,
}

pub struct OperationView {
    pub request: RequestView,
    pub stage: StageView,
}

impl View for Operation {
    type V = OperationView;

    closed spec fn view(&self) -> OperationView {
        OperationView { request: self.request@, stage: self.stage@ }
    }
}

/// An operation after a step: under way, with the next thing for the host
/// to do, or over, with its outcome.
pub enum Progress {
    Continue(Operation, Command),
    Finished(Result<Reply, CardError>),
}

pub enum ProgressView {
    Continue(OperationView, CommandView),
    Finished(Result<ReplyView, CardError>),
}

impl View for Progress {
    type V = ProgressView;

    open spec fn view(&self) -> ProgressView {
        match *self {
            Progress::Continue(op, cmd) => ProgressView::Continue(op@, cmd@),
            Progress::Finished(outcome) => ProgressView::Finished(outcome_view(outcome)),
        }
    }
}

/// Settles the outcome and asks for the disconnect.
pub open spec fn close(request: RequestView, outcome: Result<ReplyView, CardError>) -> ProgressView {
    ProgressView::Continue(
        OperationView { request, stage: StageView::Closing { outcome } },
        CommandView::Disconnect,
    )
}

/// Sends a command and waits in `stage` for the reply.
pub open spec fn send(request: RequestView, stage: StageView, frame: Seq<u8>) -> ProgressView {
    ProgressView::Continue(OperationView { request, stage }, CommandView::Transmit(frame))
}

/// What the reply to a command yields: the payload of a reply that reports
/// success, and an error for every other report.
pub open spec fn exchange_result(event: EventView, selecting: bool) -> Result<Seq<u8>, CardError> {
    match event {
        EventView::Response(resp) => reply_meaning(resp, selecting),
        EventView::Failed(e) => Err(CardError::Transport(e)),
        _ => Err(CardError::Transport(TransportError::Transmit)),
    }
}

/// The PIN that is verified ahead of the request's own exchanges.
pub open spec fn protecting_pin(request: RequestView) -> Option<Seq<char>> {
    match request {
        RequestView::Status { pin } => pin,
        RequestView::Append { pin, .. } => pin,
        RequestView::ReadAll { pin } => pin,
        RequestView::ReadOne { pin, .. } => pin,
        RequestView::Delete { pin, .. } => pin,
        RequestView::Erase { pin } => pin,
        _ => None,
    }
}

/// The first exchange of the request itself.
pub open spec fn begin_body(request: RequestView) -> ProgressView {
    match request {
        RequestView::Status { .. } => send(request, StageView::Querying, get_status_frame()),
        RequestView::Append { .. } | RequestView::ReadAll { .. } | RequestView::ReadOne { .. }
        | RequestView::Delete { .. } => send(
            request,
            StageView::Header { first: None },
            get_status_frame(),
        ),
        RequestView::Erase { .. } | RequestView::ForceErase => send(
            request,
            StageView::Last,
            erase_frame(),
        ),
        RequestView::VerifyPin { entered } => send(request, StageView::Last, verify_frame(entered)),
        RequestView::SetPin { new_pin } => match set_pin_frame(new_pin) {
            Ok(frame) => send(request, StageView::Last, frame),
            Err(e) => close(request, Err(e)),
        },
        RequestView::ChangePin { old_pin, new_pin } => match change_pin_frame(old_pin, new_pin) {
            Ok(frame) => send(request, StageView::Last, frame),
            Err(e) => close(request, Err(e)),
        },
    }
}

/// What follows SELECT: the PIN verification where the request has a PIN
/// to verify, its first exchange otherwise.
pub open spec fn after_select(request: RequestView) -> ProgressView {
    match needed_verify(protecting_pin(request)) {
        Some(frame) => send(request, StageView::Verifying, frame),
        None => begin_body(request),
    }
}

/// How a failure ends an operation.  A status query that fails while it
/// reads the data still reports the status, with one summary made from
/// the header; every other failure is the outcome.
pub open spec fn degrade(request: RequestView, first: Option<StatusHeaderView>, e: CardError) -> ProgressView {
    match first {
        Some(h) => close(request, Ok(ReplyView::Status(status_of(h, fallback_summaries(h))))),
        None => close(request, Err(e)),
    }
}

/// Stores a list of items, unless it cannot be stored: then nothing is
/// sent but the disconnect.
pub open spec fn store(request: RequestView, items: Seq<ItemView>) -> ProgressView {
    match items_frames(items) {
        Ok(commands) => send(request, StageView::Writing { commands, sent: 1 }, commands[0]),
        Err(e) => close(request, Err(e)),
    }
}

/// What an operation does with the data that it read.  A status query
/// (it alone comes with a `first` header) summarizes the items.  Appending
/// stores the items with the new one behind them; reading hands out all
/// items or the one at the index; deleting stores the items that are left,
/// or erases the card where none is left.  To read or delete, the card
/// must hold data.  A request that reads nothing never comes here; for
/// such a one the outcome would be `NoData`.
pub open spec fn after_read(
    request: RequestView,
    first: Option<StatusHeaderView>,
    header: StatusHeaderView,
    payload: Seq<u8>,
) -> ProgressView {
    let decoded = card_items(payload, header.data_type, header.label);
    match first {
        Some(h) => close(
            request,
            Ok(
                ReplyView::Status(
                    match decoded {
                        Ok(items) => status_of(h, summaries_of(items)),
                        Err(_) => status_of(h, fallback_summaries(h)),
                    },
                ),
            ),
        ),
        None => match request {
            RequestView::Append { item, .. } => match decoded {
                Ok(items) => store(request, items.push(item)),
                Err(e) => close(request, Err(e)),
            },
            RequestView::ReadAll { .. } => if payload.len() == 0 {
                close(request, Err(CardError::NoData))
            } else {
                match decoded {
                    Ok(items) => close(request, Ok(ReplyView::Items(items))),
                    Err(e) => close(request, Err(e)),
                }
            },
            RequestView::ReadOne { index, .. } => if payload.len() == 0 {
                close(request, Err(CardError::NoData))
            } else {
                match decoded {
                    Ok(items) => match item_at(items, index) {
                        Ok(item) => close(request, Ok(ReplyView::Item(item))),
                        Err(e) => close(request, Err(e)),
                    },
                    Err(e) => close(request, Err(e)),
                }
            },
            RequestView::Delete { index, .. } => if payload.len() == 0 {
                close(request, Err(CardError::NoData))
            } else {
                match decoded {
                    Ok(items) => match items_without(items, index) {
                        Ok(rest) => if rest.len() == 0 {
                            send(request, StageView::Last, erase_frame())
                        } else {
                            store(request, rest)
                        },
                        Err(e) => close(request, Err(e)),
                    },
                    Err(e) => close(request, Err(e)),
                }
            },
            _ => close(request, Err(CardError::NoData)),
        },
    }
}

/// Goes on with a read: asks for the next chunk while one is wanted, and
/// hands on the payload once none is.
pub open spec fn continue_read(
    request: RequestView,
    first: Option<StatusHeaderView>,
    header: StatusHeaderView,
    progress: ReadState,
) -> ProgressView {
    if progress.wants_chunk() {
        send(request, StageView::Chunks { first, header, progress }, read_frame(progress.index))
    } else {
        after_read(request, first, header, progress.payload())
    }
}

/// The first step of an operation: the connection is asked for, unless
/// the request is refused before any exchange.
pub open spec fn start(request: RequestView) -> ProgressView {
    let refused = match request {
        RequestView::SetPin { new_pin } => !pin_accepted(new_pin),
        RequestView::ChangePin { new_pin, .. } => !pin_accepted(new_pin),
        _ => false,
    };
    if refused {
        ProgressView::Finished(Err(CardError::Validation))
    } else {
        ProgressView::Continue(
            OperationView { request, stage: StageView::Connecting },
            CommandView::Connect,
        )
    }
}

/// One step of an operation: where it stands and what the host reports
/// give where it stands next and what the host is to do.
pub open spec fn step(op: OperationView, event: EventView) -> ProgressView {
    let request = op.request;
    match op.stage {
        StageView::Connecting => match event {
            EventView::Connected => send(request, StageView::Selecting, select_frame()),
            EventView::Failed(e) => ProgressView::Finished(Err(CardError::Transport(e))),
            _ => ProgressView::Finished(Err(CardError::Transport(TransportError::Connect))),
        },
        StageView::Selecting => match exchange_result(event, true) {
            Ok(_) => after_select(request),
            Err(e) => close(request, Err(e)),
        },
        StageView::Verifying => match exchange_result(event, false) {
            Ok(_) => begin_body(request),
            Err(e) => close(request, Err(e)),
        },
        StageView::Querying => match exchange_result(event, false) {
            Ok(payload) => if payload.len() < 7 {
                close(request, Err(CardError::Protocol(ProtocolError::InvalidStatus)))
            } else if header_of(payload).data_length > 0 {
                send(
                    request,
                    StageView::Header { first: Some(header_of(payload)) },
                    get_status_frame(),
                )
            } else {
                close(
                    request,
                    Ok(ReplyView::Status(status_of(header_of(payload), Seq::empty()))),
                )
            },
            Err(e) => close(request, Err(e)),
        },
        StageView::Header { first } => match exchange_result(event, false) {
            Ok(payload) => if payload.len() < 6 {
                degrade(request, first, CardError::Protocol(ProtocolError::InvalidStatus))
            } else {
                continue_read(
                    request,
                    first,
                    header_of(payload),
                    ReadState::start(header_of(payload).data_length),
                )
            },
            Err(e) => degrade(request, first, e),
        },
        StageView::Chunks { first, header, progress } => match exchange_result(event, false) {
            Ok(chunk) => match progress.after_chunk(chunk) {
                Ok(next) => continue_read(request, first, header, next),
                Err(e) => degrade(request, first, e),
            },
            Err(e) => degrade(request, first, e),
        },
        StageView::Writing { commands, sent } => match exchange_result(event, false) {
            Ok(_) => if sent < commands.len() {
                send(
                    request,
                    StageView::Writing { commands, sent: sent + 1 },
                    commands[sent as int],
                )
            } else {
                close(request, Ok(ReplyView::Done))
            },
            Err(e) => close(request, Err(e)),
        },
        StageView::Last => match exchange_result(event, false) {
            Ok(_) => close(request, Ok(ReplyView::Done)),
            Err(e) => close(request, Err(e)),
        },
        StageView::Closing { outcome } => ProgressView::Finished(outcome),
    }
}

fn close_with(request: Request, outcome: Result<Reply, CardError>) -> (p: Progress)
    ensures
        p@ == close(request@, outcome_view(outcome)),
{
    Progress::Continue(Operation { request, stage: Stage::Closing { outcome } }, Command::Disconnect)
}

fn send_in(request: Request, stage: Stage, cmd: Vec<u8>) -> (p: Progress)
    ensures
        p@ == send(request@, stage@, cmd@),
{
    Progress::Continue(Operation { request, stage }, Command::Transmit(cmd))
}

fn exchange(event: Event, selecting: bool) -> (r: Result<Vec<u8>, CardError>)
    ensures
        match r {
            Ok(payload) => exchange_result(event@, selecting) == Ok::<Seq<u8>, CardError>(payload@),
            Err(e) => exchange_result(event@, selecting) == Err::<Seq<u8>, CardError>(e),
        },
{
    match event {
        Event::Response(resp) => response_payload(resp.as_slice(), selecting),
        Event::Failed(e) => Err(CardError::Transport(e)),
        _ => Err(CardError::Transport(TransportError::Transmit)),
    }
}

fn begin(request: Request) -> (p: Progress)
    ensures
        p@ == begin_body(request@),
{
    match request {
        Request::Status { pin } => send_in(
            Request::Status { pin },
            Stage::Querying,
            get_status_apdu(),
        ),
        Request::Append { item, pin } => send_in(
            Request::Append { item, pin },
            Stage::Header { first: None },
            get_status_apdu(),
        ),
        Request::ReadAll { pin } => send_in(
            Request::ReadAll { pin },
            Stage::Header { first: None },
            get_status_apdu(),
        ),
        Request::ReadOne { index, pin } => send_in(
            Request::ReadOne { index, pin },
            Stage::Header { first: None },
            get_status_apdu(),
        ),
        Request::Delete { index, pin } => send_in(
            Request::Delete { index, pin },
            Stage::Header { first: None },
            get_status_apdu(),
        ),
        Request::Erase { pin } => send_in(Request::Erase { pin }, Stage::Last, erase_apdu()),
        Request::ForceErase => send_in(Request::ForceErase, Stage::Last, erase_apdu()),
        Request::VerifyPin { entered } => {
            let cmd = verify_pin_apdu(entered.as_str());
            send_in(Request::VerifyPin { entered }, Stage::Last, cmd)
        },
        Request::SetPin { new_pin } => match set_pin_apdu(new_pin.as_str()) {
            Ok(cmd) => send_in(Request::SetPin { new_pin }, Stage::Last, cmd),
            Err(e) => close_with(Request::SetPin { new_pin }, Err(e)),
        },
        Request::ChangePin { old_pin, new_pin } => match change_pin_apdu(
            old_pin.as_str(),
            new_pin.as_str(),
        ) {
            Ok(cmd) => send_in(Request::ChangePin { old_pin, new_pin }, Stage::Last, cmd),
            Err(e) => close_with(Request::ChangePin { old_pin, new_pin }, Err(e)),
        },
    }
}

fn selected(request: Request) -> (p: Progress)
    ensures
        p@ == after_select(request@),
{
    let verify = match &request {
        Request::Status { pin } => verify_pin_if_needed(pin),
        Request::Append { pin, .. } => verify_pin_if_needed(pin),
        Request::ReadAll { pin } => verify_pin_if_needed(pin),
        Request::ReadOne { pin, .. } => verify_pin_if_needed(pin),
        Request::Delete { pin, .. } => verify_pin_if_needed(pin),
        Request::Erase { pin } => verify_pin_if_needed(pin),
        _ => None,
    };
    match verify {
        Some(cmd) => send_in(request, Stage::Verifying, cmd),
        None => begin(request),
    }
}

fn degraded(request: Request, first: Option<StatusHeader>, e: CardError) -> (p: Progress)
    ensures
        p@ == degrade(request@, header_view(first), e),
{
    match first {
        Some(h) => {
            let status = card_status(&h, fallback_summary(&h));
            close_with(request, Ok(Reply::Status(status)))
        },
        None => close_with(request, Err(e)),
    }
}

fn store_items(request: Request, items: Vec<CardItem>) -> (p: Progress)
    ensures
        p@ == store(request@, item_views(items@)),
{
    match write_items_to_card(&items) {
        Ok(commands) => {
            assert(frames(commands@).len() == commands@.len());
            let cmd = slice_to_vec(commands[0].as_slice());
            send_in(request, Stage::Writing { commands, sent: 1 }, cmd)
        },
        Err(e) => close_with(request, Err(e)),
    }
}

fn finish_read(request: Request, first: Option<StatusHeader>, header: StatusHeader, payload: Vec<u8>) -> (p:
    Progress)
    ensures
        p@ == after_read(request@, header_view(first), header@, payload@),
{
    let decoded = parse_card_items(payload.as_slice(), header.data_type, header.label.as_str());
    match first {
        Some(h) => {
            let summaries = match decoded {
                Ok(items) => item_summaries(&items),
                Err(_) => fallback_summary(&h),
            };
            close_with(request, Ok(Reply::Status(card_status(&h, summaries))))
        },
        None => match request {
            Request::Append { item, pin } => match decoded {
                Ok(items) => {
                    let mut items = items;
                    let ghost before = items@;
                    items.push(item.duplicate());
                    assert(item_views(items@) =~= item_views(before).push(item@));
                    store_items(Request::Append { item, pin }, items)
                },
                Err(e) => close_with(Request::Append { item, pin }, Err(e)),
            },
            Request::ReadAll { pin } => {
                if payload.len() == 0 {
                    close_with(Request::ReadAll { pin }, Err(CardError::NoData))
                } else {
                    match decoded {
                        Ok(items) => close_with(Request::ReadAll { pin }, Ok(Reply::Items(items))),
                        Err(e) => close_with(Request::ReadAll { pin }, Err(e)),
                    }
                }
            },
            Request::ReadOne { index, pin } => {
                if payload.len() == 0 {
                    close_with(Request::ReadOne { index, pin }, Err(CardError::NoData))
                } else {
                    match decoded {
                        Ok(items) => match select_item(&items, index) {
                            Ok(item) => close_with(
                                Request::ReadOne { index, pin },
                                Ok(Reply::Item(item)),
                            ),
                            Err(e) => close_with(Request::ReadOne { index, pin }, Err(e)),
                        },
                        Err(e) => close_with(Request::ReadOne { index, pin }, Err(e)),
                    }
                }
            },
            Request::Delete { index, pin } => {
                if payload.len() == 0 {
                    close_with(Request::Delete { index, pin }, Err(CardError::NoData))
                } else {
                    match decoded {
                        Ok(items) => match remove_item(items, index) {
                            Ok(rest) => {
                                if rest.len() == 0 {
                                    send_in(
                                        Request::Delete { index, pin },
                                        Stage::Last,
                                        erase_apdu(),
                                    )
                                } else {
                                    store_items(Request::Delete { index, pin }, rest)
                                }
                            },
                            Err(e) => close_with(Request::Delete { index, pin }, Err(e)),
                        },
                        Err(e) => close_with(Request::Delete { index, pin }, Err(e)),
                    }
                }
            },
            other => close_with(other, Err(CardError::NoData)),
        },
    }
}

fn read_on(request: Request, first: Option<StatusHeader>, header: StatusHeader, progress: ReadProgress) -> (p:
    Progress)
    ensures
        p@ == continue_read(request@, header_view(first), header@, progress@),
{
    if progress.wants_chunk() {
        let cmd = progress.next_command();
        send_in(request, Stage::Chunks { first, header, progress }, cmd)
    } else {
        finish_read(request, first, header, progress.into_payload())
    }
}

impl Operation {
    /// Starts an operation.  A PIN that cannot be set is refused here,
    /// before anything is sent.
    pub fn start(request: Request) -> (p: Progress)
        ensures
            p@ == start(request@),
    {
        let refused = match &request {
            Request::SetPin { new_pin } => !check_pin(new_pin.as_str()),
            Request::ChangePin { new_pin, .. } => !check_pin(new_pin.as_str()),
            _ => false,
        };
        if refused {
            Progress::Finished(Err(CardError::Validation))
        } else {
            Progress::Continue(Operation { request, stage: Stage::Connecting }, Command::Connect)
        }
    }

    /// Takes the host's report on the last command and says what comes
    /// next.
    pub fn advance(self, event: Event) -> (p: Progress)
        ensures
            p@ == step(self@, event@),
    {
        let Operation { request, stage } = self;
        match stage {
            Stage::Connecting => match event {
                Event::Connected => send_in(request, Stage::Selecting, select_apdu()),
                Event::Failed(e) => Progress::Finished(Err(CardError::Transport(e))),
                _ => Progress::Finished(Err(CardError::Transport(TransportError::Connect))),
            },
            Stage::Selecting => match exchange(event, true) {
                Ok(_) => selected(request),
                Err(e) => close_with(request, Err(e)),
            },
            Stage::Verifying => match exchange(event, false) {
                Ok(_) => begin(request),
                Err(e) => close_with(request, Err(e)),
            },
            Stage::Querying => match exchange(event, false) {
                Ok(payload) => {
                    if payload.len() < 7 {
                        return close_with(
                            request,
                            Err(CardError::Protocol(ProtocolError::InvalidStatus)),
                        );
                    }
                    match parse_status(payload.as_slice()) {
                        Ok(header) => {
                            if header.data_length > 0 {
                                send_in(
                                    request,
                                    Stage::Header { first: Some(header) },
                                    get_status_apdu(),
                                )
                            } else {
                                let none: Vec<crate::status::CardItemSummary> = Vec::new();
                                assert(summary_views(none@) =~= Seq::empty());
                                close_with(request, Ok(Reply::Status(card_status(&header, none))))
                            }
                        },
                        Err(e) => close_with(request, Err(e)),
                    }
                },
                Err(e) => close_with(request, Err(e)),
            },
            Stage::Header { first } => match exchange(event, false) {
                Ok(payload) => match parse_status(payload.as_slice()) {
                    Ok(header) => {
                        let progress = ReadProgress::new(header.data_length);
                        read_on(request, first, header, progress)
                    },
                    Err(e) => degraded(request, first, e),
                },
                Err(e) => degraded(request, first, e),
            },
            Stage::Chunks { first, header, progress } => match exchange(event, false) {
                Ok(chunk) => match progress.accept_chunk(chunk.as_slice()) {
                    Ok(next) => read_on(request, first, header, next),
                    Err(e) => degraded(request, first, e),
                },
                Err(e) => degraded(request, first, e),
            },
            Stage::Writing { commands, sent } => match exchange(event, false) {
                Ok(_) => {
                    if sent < commands.len() {
                        let cmd = slice_to_vec(commands[sent].as_slice());
                        send_in(request, Stage::Writing { commands, sent: sent + 1 }, cmd)
                    } else {
                        close_with(request, Ok(Reply::Done))
                    }
                },
                Err(e) => close_with(request, Err(e)),
            },
            Stage::Last => match exchange(event, false) {
                Ok(_) => close_with(request, Ok(Reply::Done)),
                Err(e) => close_with(request, Err(e)),
            },
            Stage::Closing { outcome } => Progress::Finished(outcome),
        }
    }
}

/// Starts a status query: the state of the card, with a summary of each
/// item if the data can be read and decoded, and with one summary made
/// from the status header if it cannot.
pub fn get_card_status(pin: Option<String>) -> (p: Progress)
    ensures
        p@ == start(RequestView::Status { pin: pin_view(pin) }),
{
    Operation::start(Request::Status { pin })
}

/// Starts the appending of an item: the items on the card are read, the
/// new one is put behind them, and all are written again.
pub fn write_item_to_card(item_type: String, data: String, label: String, pin: Option<String>) -> (p:
    Progress)
    ensures
        p@ == start(
            RequestView::Append {
                item: ItemView { item_type: item_type@, label: label@, data: data@ },
                pin: pin_view(pin),
            },
        ),
{
    Operation::start(Request::Append { item: CardItem { item_type, label, data }, pin })
}

/// Starts the reading of all items.  A card without data ends it with
/// `NoData`.
pub fn read_card_items(pin: Option<String>) -> (p: Progress)
    ensures
        p@ == start(RequestView::ReadAll { pin: pin_view(pin) }),
{
    Operation::start(Request::ReadAll { pin })
}

/// Starts the reading of the item at `index`.
pub fn read_card_item(index: usize, pin: Option<String>) -> (p: Progress)
    ensures
        p@ == start(RequestView::ReadOne { index: index as nat, pin: pin_view(pin) }),
{
    Operation::start(Request::ReadOne { index, pin })
}

/// Starts the deleting of the item at `index`.  The items that are left
/// are written again; where none is left the card is erased.
pub fn delete_card_item(index: usize, pin: Option<String>) -> (p: Progress)
    ensures
        p@ == start(RequestView::Delete { index: index as nat, pin: pin_view(pin) }),
{
    Operation::start(Request::Delete { index, pin })
}

/// Starts the erasing of the card.
pub fn erase_card(pin: Option<String>) -> (p: Progress)
    ensures
        p@ == start(RequestView::Erase { pin: pin_view(pin) }),
{
    Operation::start(Request::Erase { pin })
}

/// Starts the erasing of the card without PIN verification.  It destroys
/// the data and is the only way back for a locked card; the card itself
/// must allow it.
pub fn force_erase_card() -> (p: Progress)
    ensures
        p@ == start(RequestView::ForceErase),
{
    Operation::start(Request::ForceErase)
}

/// Starts the verification of a PIN.
pub fn verify_pin(pin: String) -> (p: Progress)
    ensures
        p@ == start(RequestView::VerifyPin { entered: pin@ }),
{
    Operation::start(Request::VerifyPin { entered: pin })
}

/// Starts the setting of the first PIN.  A PIN of fewer than 8 or more
/// than 16 bytes ends it at once with `Validation`.
pub fn set_pin(pin: String) -> (p: Progress)
    ensures
        p@ == start(RequestView::SetPin { new_pin: pin@ }),
{
    Operation::start(Request::SetPin { new_pin: pin })
}

/// Starts the change of the PIN.  A new PIN of fewer than 8 or more than
/// 16 bytes ends it at once with `Validation`.
pub fn change_pin(old_pin: String, new_pin: String) -> (p: Progress)
    ensures
        p@ == start(RequestView::ChangePin { old_pin: old_pin@, new_pin: new_pin@ }),
{
    Operation::start(Request::ChangePin { old_pin, new_pin })
}

/// Passes on the names of the readers that the host found, and fails
/// where it found none.
pub fn list_readers(found: Vec<String>) -> (r: Result<Vec<String>, CardError>)
    ensures
        match r {
            Ok(names) => found@.len() > 0 && names == found,
            Err(e) => found@.len() == 0 && e == CardError::Transport(TransportError::NoReaders),
        },
{
    if found.len() == 0 {
        Err(CardError::Transport(TransportError::NoReaders))
    } else {
        Ok(found)
    }
}

/// The connection is always released.  An operation is over only from
/// `Closing`, which it enters with the command to disconnect and at no
/// other time, or from `Connecting` when no connection came about.  It
/// asks for a connection only when it starts, and never again.
pub proof fn lemma_release(op: OperationView, event: EventView)
    ensures
        match step(op, event) {
            ProgressView::Finished(_) => op.stage is Closing || (op.stage is Connecting && !(event
                is Connected)),
            ProgressView::Continue(next, cmd) => {
                &&& !(cmd is Connect)
                &&& !(next.stage is Connecting)
                &&& !(op.stage is Closing)
                &&& cmd is Disconnect <==> next.stage is Closing
                &&& next.request == op.request
            },
        },
{
}

/// An operation starts with the command to connect, or is refused before
/// any command.
pub proof fn lemma_start(request: RequestView)
    ensures
        match start(request) {
            ProgressView::Finished(outcome) => outcome == Err::<ReplyView, CardError>(
                CardError::Validation,
            ),
            ProgressView::Continue(op, cmd) => cmd is Connect && op.stage is Connecting
                && op.request == request,
        },
{
}

/// Items that cannot be stored are refused before the card is touched:
/// the operation sends no command of the store sequence, not even the
/// erase, and goes straight to the disconnect with the error.
pub proof fn lemma_refused_before_write(request: RequestView, items: Seq<ItemView>)
    ensures
        match crate::items::items_payload(items) {
            Err(e) => store(request, items) == close(request, Err(e)),
            Ok(bytes) => store(request, items) is Continue && store(request, items)->Continue_1
                == CommandView::Transmit(erase_frame()),
        },
{
}

/// Where an operation stands after the host made the given reports, one
/// after the other.  Reports past the end of the operation change nothing.
pub open spec fn run(p: ProgressView, events: Seq<EventView>) -> ProgressView
    decreases events.len(),
{
    match p {
        ProgressView::Finished(_) => p,
        ProgressView::Continue(op, _) => if events.len() == 0 {
            p
        } else {
            run(step(op, events[0]), events.drop_first())
        },
    }
}

/// The commands that an operation gives, from the one it stands at, while
/// the host makes the given reports.
pub open spec fn commands_of(p: ProgressView, events: Seq<EventView>) -> Seq<CommandView>
    decreases events.len(),
{
    match p {
        ProgressView::Finished(_) => Seq::empty(),
        ProgressView::Continue(op, cmd) => if events.len() == 0 {
            seq![cmd]
        } else {
            seq![cmd] + commands_of(step(op, events[0]), events.drop_first())
        },
    }
}

/// Commands that use a connection and end by giving it up: transmissions,
/// then the disconnect as the last command.
pub open spec fn closes_connection(cmds: Seq<CommandView>) -> bool {
    &&& cmds.len() >= 1
    &&& cmds.last() is Disconnect
    &&& forall|i: int| 0 <= i < cmds.len() - 1 ==> (#[trigger] cmds[i]) is Transmit
}

/// The commands of a whole operation: none, or the connect alone, or the
/// connect and then commands that use the connection and give it up.
pub open spec fn released(cmds: Seq<CommandView>) -> bool {
    cmds.len() == 0 || (cmds[0] is Connect && (cmds.len() == 1 || closes_connection(
        cmds.subrange(1, cmds.len() as int),
    )))
}

proof fn lemma_connected_run(op: OperationView, cmd: CommandView, events: Seq<EventView>)
    requires
        !(op.stage is Connecting),
        cmd is Disconnect <==> op.stage is Closing,
        !(cmd is Connect),
        run(ProgressView::Continue(op, cmd), events) is Finished,
    ensures
        closes_connection(commands_of(ProgressView::Continue(op, cmd), events)),
    decreases events.len(),
{
    if events.len() > 0 {
        lemma_release(op, events[0]);
        match step(op, events[0]) {
            ProgressView::Finished(_) => {
                assert(commands_of(step(op, events[0]), events.drop_first()) =~= Seq::empty());
            },
            ProgressView::Continue(next, next_cmd) => {
                lemma_connected_run(next, next_cmd, events.drop_first());
            },
        }
    }
}

/// Guaranteed release, over whole runs: whatever the host reports, an
/// operation that is over has given no command at all (it was refused), or
/// only the connect (no connection came about), or the connect, then
/// nothing but transmissions, and the disconnect as its last command.  No
/// path, whether it ends in success or in an error, skips the disconnect.
pub proof fn lemma_always_released(request: RequestView, events: Seq<EventView>)
    ensures
        run(start(request), events) is Finished ==> released(
            commands_of(start(request), events),
        ),
{
    if run(start(request), events) is Finished {
        match start(request) {
            ProgressView::Finished(_) => {},
            ProgressView::Continue(op, _) => {
                lemma_release(op, events[0]);
                match step(op, events[0]) {
                    ProgressView::Finished(_) => {
                        assert(commands_of(step(op, events[0]), events.drop_first())
                            =~= Seq::empty());
                    },
                    ProgressView::Continue(next, next_cmd) => {
                        lemma_connected_run(next, next_cmd, events.drop_first());
                    },
                }
            },
        }
    }
}

/// The commands that transmit a list of frames, one each.
pub open spec fn transmissions(frames: Seq<Seq<u8>>) -> Seq<CommandView> {
    frames.map_values(|frame: Seq<u8>| CommandView::Transmit(frame))
}

/// Whether a report is a reply of the card that tells success.
pub open spec fn succeeded(event: EventView) -> bool {
    exchange_result(event, false) is Ok
}

/// Order of a write: while the card answers each command with success,
/// the commands of a store sequence go out one by one in their order;
/// after the last of them comes the disconnect, and the outcome is
/// success.
pub proof fn lemma_write_in_order(
    request: RequestView,
    commands: Seq<Seq<u8>>,
    sent: nat,
    events: Seq<EventView>,
)
    requires
        1 <= sent <= commands.len(),
        events.len() == commands.len() - sent + 2,
        forall|i: int| 0 <= i < events.len() - 1 ==> succeeded(#[trigger] events[i]),
    ensures
        commands_of(
            send(request, StageView::Writing { commands, sent }, commands[sent - 1]),
            events,
        ) == transmissions(commands.subrange(sent - 1, commands.len() as int)) + seq![
            CommandView::Disconnect,
        ],
        run(send(request, StageView::Writing { commands, sent }, commands[sent - 1]), events)
            == ProgressView::Finished(Ok::<ReplyView, CardError>(ReplyView::Done)),
    decreases commands.len() - sent,
{
    let rest = events.drop_first();
    if sent < commands.len() {
        lemma_write_in_order(request, commands, sent + 1, rest);
    } else {
        let closing = OperationView {
            request,
            stage: StageView::Closing { outcome: Ok(ReplyView::Done) },
        };
        assert(commands_of(step(closing, rest[0]), rest.drop_first()) =~= Seq::empty());
        assert(run(step(closing, rest[0]), rest.drop_first()) == step(closing, rest[0]));
        assert(run(close(request, Ok(ReplyView::Done)), rest) == step(closing, rest[0]));
        assert(commands_of(close(request, Ok(ReplyView::Done)), rest) =~= seq![
            CommandView::Disconnect,
        ]);
    }
}

/// A write stops at the first command that fails: the next command is the
/// disconnect and the failure is the outcome.  What the card has taken in
/// by then stays as it is.
pub proof fn lemma_write_stops(
    request: RequestView,
    commands: Seq<Seq<u8>>,
    sent: nat,
    event: EventView,
)
    ensures
        !succeeded(event) ==> step(
            OperationView { request, stage: StageView::Writing { commands, sent } },
            event,
        ) == close(request, Err(exchange_result(event, false)->Err_0)),
{
}

/// The reply of a card that sends `payload` and reports success.
pub open spec fn success_reply(payload: Seq<u8>) -> EventView {
    EventView::Response(payload + seq![0x90u8, 0x00u8])
}

/// What a card reports, request by request, to a reader that stands at
/// `progress`, when it answers the request for chunk `i` with `source(i)`.
pub open spec fn chunk_replies(progress: ReadState, source: spec_fn(int) -> Seq<u8>) -> Seq<
    EventView,
>
    decreases
        (if progress.wants_chunk() {
            1nat
        } else {
            0nat
        }),
        100 - progress.index,
{
    if !progress.wants_chunk() {
        Seq::empty()
    } else {
        let chunk = source(progress.index as int);
        seq![success_reply(chunk)] + match progress.after_chunk(chunk) {
            Ok(next) => chunk_replies(next, source),
            Err(_) => Seq::empty(),
        }
    }
}

/// An operation reads as the reader does: against a card that answers
/// each request for a chunk, the operation comes to the payload that
/// [`ReadState::read_through`] gives and goes on with it, or fails as the
/// reader fails.  With [`crate::transfer::lemma_read_back`] this makes an
/// operation read back, byte for byte, what a store sequence wrote.
pub proof fn lemma_operation_reads_through(
    request: RequestView,
    first: Option<StatusHeaderView>,
    header: StatusHeaderView,
    progress: ReadState,
    source: spec_fn(int) -> Seq<u8>,
)
    ensures
        run(
            continue_read(request, first, header, progress),
            chunk_replies(progress, source),
        ) == match progress.read_through(source) {
            Ok(payload) => after_read(request, first, header, payload),
            Err(e) => degrade(request, first, e),
        },
    decreases
        (if progress.wants_chunk() {
            1nat
        } else {
            0nat
        }),
        100 - progress.index,
{
    let replies = chunk_replies(progress, source);
    if progress.wants_chunk() {
        let chunk = source(progress.index as int);
        let reply = chunk + seq![0x90u8, 0x00u8];
        assert(reply.subrange(0, reply.len() - 2) =~= chunk);
        match progress.after_chunk(chunk) {
            Ok(next) => {
                assert(replies.drop_first() =~= chunk_replies(next, source));
                lemma_operation_reads_through(request, first, header, next, source);
            },
            Err(e) => {
                assert(replies.drop_first() =~= Seq::empty());
                assert(run(degrade(request, first, e), Seq::empty()) == degrade(request, first, e));
            },
        }
    }
}

} // verus!
