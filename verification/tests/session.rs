use smartcard::error::{CardError, ProtocolError, TransportError};
use smartcard::items::CardItem;
use smartcard::session::{
    change_pin, delete_card_item, erase_card, force_erase_card, get_card_status, list_readers,
    read_card_item, read_card_items, set_pin, verify_pin, write_item_to_card, Command, Event,
    Operation, Progress, Reply, Request,
};
use smartcard::status::{CardItemSummary, CardStatus};

const SELECT: [u8; 14] =
    [0x00, 0xA4, 0x04, 0x00, 0x09, 0xF0, 0x53, 0x51, 0x52, 0x54, 0x53, 0x01, 0x00, 0x00];
const GET_STATUS: [u8; 4] = [0x80, 0x03, 0x00, 0x00];
const ERASE: [u8; 4] = [0x80, 0x04, 0x00, 0x00];

/// A card that behaves as the storage application does.
struct Card {
    installed: bool,
    data: Vec<u8>,
    data_type: u8,
    label: Vec<u8>,
    pin: Option<Vec<u8>>,
    verified: bool,
    retries: u8,
    /// Replies that take the place of the card's own, by command count.
    faults: Vec<(usize, Vec<u8>)>,
    /// Every command received, in order.
    log: Vec<Vec<u8>>,
    connects: usize,
    disconnects: usize,
}

fn ok(mut payload: Vec<u8>) -> Vec<u8> {
    payload.extend_from_slice(&[0x90, 0x00]);
    payload
}

impl Card {
    fn new() -> Card {
        Card {
            installed: true,
            data: Vec::new(),
            data_type: 0,
            label: Vec::new(),
            pin: None,
            verified: false,
            retries: 3,
            faults: Vec::new(),
            log: Vec::new(),
            connects: 0,
            disconnects: 0,
        }
    }

    fn holding(data: &[u8], data_type: u8, label: &str) -> Card {
        let mut card = Card::new();
        card.data = data.to_vec();
        card.data_type = data_type;
        card.label = label.as_bytes().to_vec();
        card
    }

    fn open(&self) -> bool {
        self.pin.is_none() || self.verified
    }

    fn transmit(&mut self, cmd: &[u8]) -> Vec<u8> {
        let count = self.log.len();
        self.log.push(cmd.to_vec());
        if let Some(pos) = self.faults.iter().position(|(at, _)| *at == count) {
            return self.faults.remove(pos).1;
        }
        let data = if cmd.len() > 5 { &cmd[5..] } else { &[][..] };
        match (cmd[0], cmd[1]) {
            (0x00, 0xA4) => {
                self.verified = false;
                if self.installed && data == &SELECT[5..] {
                    ok(vec![])
                } else {
                    vec![0x6A, 0x82]
                }
            }
            (0x80, 0x20) => {
                if self.retries == 0 {
                    return vec![0x69, 0x84];
                }
                if self.pin.as_deref() == Some(data) {
                    self.verified = true;
                    self.retries = 3;
                    ok(vec![])
                } else {
                    self.retries -= 1;
                    if self.retries == 0 {
                        vec![0x69, 0x84]
                    } else {
                        vec![0x63, 0xC0 + self.retries]
                    }
                }
            }
            (0x80, 0x03) => {
                let mut out = vec![
                    (self.data.len() >> 8) as u8,
                    self.data.len() as u8,
                    self.data_type,
                    self.pin.is_some() as u8,
                    self.verified as u8,
                    self.retries,
                    self.label.len() as u8,
                ];
                out.extend_from_slice(&self.label);
                ok(out)
            }
            (0x80, 0x02) => {
                if !self.open() {
                    return vec![0x69, 0x82];
                }
                let start = (cmd[2] as usize * 240).min(self.data.len());
                let end = (start + 240).min(self.data.len());
                ok(self.data[start..end].to_vec())
            }
            (0x80, 0x04) => {
                self.data.clear();
                self.label.clear();
                self.data_type = 0;
                ok(vec![])
            }
            (0x80, 0x10) => {
                if !self.open() {
                    return vec![0x69, 0x82];
                }
                self.data_type = cmd[2];
                ok(vec![])
            }
            (0x80, 0x11) => {
                if !self.open() {
                    return vec![0x69, 0x82];
                }
                self.label = data.to_vec();
                ok(vec![])
            }
            (0x80, 0x01) => {
                if !self.open() {
                    return vec![0x69, 0x82];
                }
                if cmd[2] as usize * 240 != self.data.len() {
                    return vec![0x6A, 0x86];
                }
                if self.data.len() + data.len() > 8192 {
                    return vec![0x6A, 0x84];
                }
                self.data.extend_from_slice(data);
                ok(vec![])
            }
            (0x80, 0x22) => {
                if self.pin.is_some() {
                    return vec![0x69, 0x85];
                }
                self.pin = Some(data.to_vec());
                ok(vec![])
            }
            (0x80, 0x21) => {
                let split = cmd[2] as usize;
                if !self.verified || self.pin.as_deref() != Some(&data[..split]) {
                    return vec![0x69, 0x82];
                }
                self.pin = Some(data[split..].to_vec());
                ok(vec![])
            }
            _ => vec![0x6D, 0x00],
        }
    }
}

/// Runs an operation against a card, as a host does, and checks on the way
/// that the connection is opened once and closed before the end.
fn run(card: &mut Card, start: Progress) -> Result<Reply, CardError> {
    let connects = card.connects;
    let disconnects = card.disconnects;
    let mut progress = start;
    let mut steps = 0;
    loop {
        steps += 1;
        assert!(steps < 1000);
        match progress {
            Progress::Finished(outcome) => {
                assert!(card.connects - connects <= 1);
                assert_eq!(card.disconnects - disconnects, card.connects - connects);
                return outcome;
            }
            Progress::Continue(op, command) => {
                let event = match command {
                    Command::Connect => {
                        card.connects += 1;
                        Event::Connected
                    }
                    Command::Transmit(bytes) => {
                        assert_eq!(card.connects - connects, 1);
                        assert_eq!(card.disconnects, disconnects);
                        Event::Response(card.transmit(&bytes))
                    }
                    Command::Disconnect => {
                        card.disconnects += 1;
                        Event::Disconnected
                    }
                };
                progress = op.advance(event);
            }
        }
    }
}

/// Feeds an operation a fixed list of reports and lists what it asked for.
fn script(start: Progress, events: Vec<Event>) -> (Vec<Command>, Option<Result<Reply, CardError>>) {
    let mut commands = Vec::new();
    let mut progress = start;
    let mut events = events.into_iter();
    loop {
        match progress {
            Progress::Finished(outcome) => return (commands, Some(outcome)),
            Progress::Continue(op, command) => {
                commands.push(command);
                match events.next() {
                    Some(event) => progress = op.advance(event),
                    None => return (commands, None),
                }
            }
        }
    }
}

fn item(item_type: &str, label: &str, data: &str) -> CardItem {
    CardItem { item_type: item_type.to_string(), label: label.to_string(), data: data.to_string() }
}

fn append(card: &mut Card, it: &CardItem, pin: Option<&str>) -> Result<Reply, CardError> {
    run(
        card,
        write_item_to_card(
            it.item_type.clone(),
            it.data.clone(),
            it.label.clone(),
            pin.map(str::to_string),
        ),
    )
}

fn status(card: &mut Card) -> CardStatus {
    match run(card, get_card_status(None)) {
        Ok(Reply::Status(status)) => status,
        other => panic!("no status: {:?}", other),
    }
}

fn pin(text: &str) -> Option<String> {
    Some(text.to_string())
}

#[test]
fn append_then_delete_scenario() {
    let mut card = Card::new();
    let a = item("share", "Share A", "share-data-a");
    let b = item("vault", "Vault B", "vault-data-b");

    let before = status(&mut card);
    assert!(!before.has_data);
    assert_eq!(before.total_items, 0);
    assert_eq!(before.items, vec![]);
    assert_eq!(before.free_bytes_estimate, 8192);

    assert_eq!(append(&mut card, &a, None), Ok(Reply::Done));
    assert_eq!(card.label, b"1 item");
    assert_eq!(card.data_type, 2);
    let one = status(&mut card);
    assert!(one.has_data);
    assert_eq!(one.total_items, 1);
    assert_eq!(
        one.items,
        vec![CardItemSummary {
            index: 0,
            item_type: "share".to_string(),
            label: "Share A".to_string(),
            data_size: 12
        }]
    );
    assert_eq!(one.data_length as usize, card.data.len());
    assert_eq!(one.free_bytes_estimate, 8192 - card.data.len() as i32);

    assert_eq!(append(&mut card, &b, None), Ok(Reply::Done));
    assert_eq!(card.label, b"2 items");
    let two = status(&mut card);
    assert_eq!(two.total_items, 2);
    assert_eq!(two.items[0].label, "Share A");
    assert_eq!(two.items[1].label, "Vault B");
    assert_eq!(two.items[1].index, 1);
    assert_eq!(
        run(&mut card, read_card_items(None)),
        Ok(Reply::Items(vec![a.clone(), b.clone()]))
    );

    assert_eq!(run(&mut card, delete_card_item(0, None)), Ok(Reply::Done));
    assert_eq!(card.label, b"1 item");
    assert_eq!(run(&mut card, read_card_items(None)), Ok(Reply::Items(vec![b.clone()])));
    assert_eq!(run(&mut card, read_card_item(0, None)), Ok(Reply::Item(b)));

    assert_eq!(run(&mut card, delete_card_item(0, None)), Ok(Reply::Done));
    assert!(card.data.is_empty());
    assert_eq!(card.log.last().unwrap(), &ERASE.to_vec());
    let after = status(&mut card);
    assert!(!after.has_data);
    assert_eq!(after.total_items, 0);
}

#[test]
fn append_sends_the_exchanges_in_order() {
    let mut card = Card::new();
    assert_eq!(append(&mut card, &item("share", "l", "d"), None), Ok(Reply::Done));
    let json = br#"[{"item_type":"share","label":"l","data":"d"}]"#;
    assert_eq!(
        card.log,
        vec![
            SELECT.to_vec(),
            GET_STATUS.to_vec(),
            ERASE.to_vec(),
            vec![0x80, 0x10, 0x02, 0x00],
            [&[0x80, 0x11, 0x00, 0x00, 6][..], b"1 item"].concat(),
            [&[0x80, 0x01, 0x00, 0x01, json.len() as u8][..], json].concat(),
        ]
    );
    assert_eq!(card.data, json);
}

#[test]
fn large_items_travel_in_chunks() {
    let mut card = Card::new();
    let big = item("vault", "big", &"x".repeat(1000));
    let small = item("share", "small", "y");
    assert_eq!(append(&mut card, &big, None), Ok(Reply::Done));
    assert_eq!(append(&mut card, &small, None), Ok(Reply::Done));
    assert!(card.data.len() > 1000);
    assert_eq!(run(&mut card, read_card_items(None)), Ok(Reply::Items(vec![big, small.clone()])));
    assert_eq!(run(&mut card, read_card_item(1, None)), Ok(Reply::Item(small)));
}

#[test]
fn payload_of_whole_chunks_is_read_back() {
    // A bare payload of exactly two chunks, and one byte more.
    for len in [480usize, 481] {
        let text = "z".repeat(len);
        let mut card = Card::holding(text.as_bytes(), 1, "bare");
        assert_eq!(
            run(&mut card, read_card_items(None)),
            Ok(Reply::Items(vec![item("share", "bare", &text)]))
        );
        let reads = card.log.iter().filter(|c| c[1] == 0x02).count();
        assert_eq!(reads, (len + 239) / 240);
    }
}

#[test]
fn legacy_card_is_read_as_one_item() {
    let mut card = Card::holding(b"raw share", 1, "old card");
    assert_eq!(
        run(&mut card, read_card_items(None)),
        Ok(Reply::Items(vec![item("share", "old card", "raw share")]))
    );
    let st = status(&mut card);
    assert_eq!(st.total_items, 1);
    assert_eq!(st.items[0].item_type, "share");
    assert_eq!(st.items[0].label, "old card");
    assert_eq!(st.items[0].data_size, 9);
}

#[test]
fn appending_to_a_legacy_card_keeps_its_payload_as_first_item() {
    let mut card = Card::holding(b"raw vault", 2, "old");
    let new = item("share", "new", "n");
    assert_eq!(append(&mut card, &new, None), Ok(Reply::Done));
    assert_eq!(
        run(&mut card, read_card_items(None)),
        Ok(Reply::Items(vec![item("vault", "old", "raw vault"), new]))
    );
    assert_eq!(card.label, b"2 items");
}

#[test]
fn reading_an_empty_card_is_no_data() {
    let mut card = Card::new();
    assert_eq!(run(&mut card, read_card_items(None)), Err(CardError::NoData));
    assert_eq!(run(&mut card, read_card_item(0, None)), Err(CardError::NoData));
    assert_eq!(run(&mut card, delete_card_item(0, None)), Err(CardError::NoData));
    assert!(card.log.iter().all(|c| c[1] != 0x04 && c[1] != 0x01));
}

#[test]
fn index_past_the_items_names_index_and_count() {
    let mut card = Card::new();
    append(&mut card, &item("a", "b", "c"), None).unwrap();
    append(&mut card, &item("d", "e", "f"), None).unwrap();
    let stored = card.data.clone();
    assert_eq!(
        run(&mut card, read_card_item(2, None)),
        Err(CardError::Range { index: 2, count: 2 })
    );
    assert_eq!(
        run(&mut card, delete_card_item(5, None)),
        Err(CardError::Range { index: 5, count: 2 })
    );
    assert_eq!(card.data, stored);
}

#[test]
fn items_past_capacity_are_refused_before_any_write() {
    let mut card = Card::new();
    append(&mut card, &item("vault", "first", &"a".repeat(5000)), None).unwrap();
    let stored = card.data.clone();
    let writes_before = card.log.len();
    let outcome = append(&mut card, &item("vault", "second", &"b".repeat(5000)), None);
    assert!(matches!(outcome, Err(CardError::CapacityExceeded { size }) if size > 8192));
    assert_eq!(card.data, stored);
    assert_eq!(card.label, b"1 item");
    assert!(card.log[writes_before..].iter().all(|c| c[1] != 0x04 && c[1] != 0x10
        && c[1] != 0x11
        && c[1] != 0x01));
}

#[test]
fn card_content_that_is_not_utf8_is_an_encoding_error() {
    let mut card = Card::holding(&[0xFF, 0xFE, 0xFD], 1, "bad");
    assert_eq!(run(&mut card, read_card_items(None)), Err(CardError::Encoding));
    assert_eq!(append(&mut card, &item("a", "b", "c"), None), Err(CardError::Encoding));
    assert_eq!(card.data, vec![0xFF, 0xFE, 0xFD]);
}

#[test]
fn status_degrades_when_the_data_cannot_be_decoded() {
    let mut card = Card::holding(&[0xFF, 0xFE, 0xFD], 1, "bad");
    let st = status(&mut card);
    assert!(st.has_data);
    assert_eq!(st.data_length, 3);
    assert_eq!(
        st.items,
        vec![CardItemSummary {
            index: 0,
            item_type: "share".to_string(),
            label: "bad".to_string(),
            data_size: 3
        }]
    );
    assert_eq!(st.total_items, 1);
}

#[test]
fn status_degrades_when_the_data_cannot_be_read() {
    let mut card = Card::holding(b"secret", 2, "locked away");
    card.pin = Some(b"12345678".to_vec());
    let st = status(&mut card);
    assert!(st.has_data);
    assert!(st.pin_set);
    assert!(!st.pin_verified);
    assert_eq!(st.pin_retries_remaining, 3);
    assert_eq!(st.total_items, 1);
    assert_eq!(st.items[0].item_type, "vault");
    assert_eq!(st.items[0].label, "locked away");
    assert_eq!(st.items[0].data_size, 6);
}

#[test]
fn status_with_pin_reads_the_items() {
    let mut card = Card::new();
    append(&mut card, &item("share", "s", "data"), None).unwrap();
    card.pin = Some(b"12345678".to_vec());
    match run(&mut card, get_card_status(pin("12345678"))) {
        Ok(Reply::Status(st)) => {
            assert!(st.pin_set);
            assert!(st.pin_verified);
            assert_eq!(st.total_items, 1);
            assert_eq!(st.items[0].label, "s");
            assert_eq!(st.items[0].data_size, 4);
        }
        other => panic!("no status: {:?}", other),
    }
}

#[test]
fn status_fails_when_its_own_query_fails() {
    let mut card = Card::new();
    card.faults.push((1, vec![0x6F, 0x00]));
    assert_eq!(
        run(&mut card, get_card_status(None)),
        Err(CardError::Protocol(ProtocolError::Generic(0x6F, 0x00)))
    );
    let mut card = Card::new();
    card.faults.push((1, ok(vec![0, 0, 0, 0, 0, 0])));
    assert_eq!(
        run(&mut card, get_card_status(None)),
        Err(CardError::Protocol(ProtocolError::InvalidStatus))
    );
}

#[test]
fn protected_read_needs_the_pin() {
    let mut card = Card::new();
    append(&mut card, &item("share", "s", "data"), None).unwrap();
    card.pin = Some(b"12345678".to_vec());
    assert_eq!(
        run(&mut card, read_card_items(None)),
        Err(CardError::Protocol(ProtocolError::PinRequired))
    );
    assert_eq!(
        run(&mut card, read_card_items(pin(""))),
        Err(CardError::Protocol(ProtocolError::PinRequired))
    );
    assert_eq!(
        run(&mut card, read_card_items(pin("12345678"))),
        Ok(Reply::Items(vec![item("share", "s", "data")]))
    );
    // Verification does not outlive the session.
    assert_eq!(
        run(&mut card, read_card_items(None)),
        Err(CardError::Protocol(ProtocolError::PinRequired))
    );
}

#[test]
fn pin_is_verified_right_after_select() {
    let mut card = Card::new();
    card.pin = Some(b"12345678".to_vec());
    assert_eq!(run(&mut card, erase_card(pin("12345678"))), Ok(Reply::Done));
    assert_eq!(
        card.log,
        vec![
            SELECT.to_vec(),
            [&[0x80, 0x20, 0x00, 0x00, 8][..], b"12345678"].concat(),
            ERASE.to_vec(),
        ]
    );
}

#[test]
fn wrong_pin_ends_the_operation_and_locks_the_card_in_the_end() {
    let mut card = Card::holding(b"x", 1, "");
    card.pin = Some(b"12345678".to_vec());
    assert_eq!(
        run(&mut card, verify_pin("00000000".to_string())),
        Err(CardError::Protocol(ProtocolError::Generic(0x63, 0xC2)))
    );
    assert_eq!(
        run(&mut card, read_card_items(pin("00000000"))),
        Err(CardError::Protocol(ProtocolError::Generic(0x63, 0xC1)))
    );
    assert_eq!(
        run(&mut card, erase_card(pin("00000000"))),
        Err(CardError::Protocol(ProtocolError::CardLocked))
    );
    assert_eq!(card.data, b"x");
    assert_eq!(
        run(&mut card, verify_pin("12345678".to_string())),
        Err(CardError::Protocol(ProtocolError::CardLocked))
    );
    // The way back: erase without verification.
    assert_eq!(run(&mut card, force_erase_card()), Ok(Reply::Done));
    assert!(card.data.is_empty());
    assert_eq!(card.log.last().unwrap(), &ERASE.to_vec());
    let before_last = &card.log[card.log.len() - 2];
    assert_eq!(before_last, &SELECT.to_vec());
}

#[test]
fn verify_pin_sends_even_an_empty_pin() {
    let mut card = Card::new();
    let _ = run(&mut card, verify_pin(String::new()));
    assert_eq!(card.log, vec![SELECT.to_vec(), vec![0x80, 0x20, 0x00, 0x00]]);
}

#[test]
fn set_pin_refuses_bad_lengths_before_connecting() {
    let mut card = Card::new();
    assert_eq!(run(&mut card, set_pin("1234567".to_string())), Err(CardError::Validation));
    assert_eq!(
        run(&mut card, set_pin("12345678901234567".to_string())),
        Err(CardError::Validation)
    );
    assert_eq!(
        run(&mut card, change_pin("12345678".to_string(), "short".to_string())),
        Err(CardError::Validation)
    );
    assert_eq!(card.connects, 0);
    assert!(card.log.is_empty());
}

#[test]
fn set_and_change_pin() {
    let mut card = Card::new();
    assert_eq!(run(&mut card, set_pin("12345678".to_string())), Ok(Reply::Done));
    assert_eq!(card.pin, Some(b"12345678".to_vec()));
    assert_eq!(
        card.log,
        vec![SELECT.to_vec(), [&[0x80, 0x22, 0x00, 0x00, 8][..], b"12345678"].concat()]
    );
    // The card takes a first PIN only.
    assert_eq!(
        run(&mut card, set_pin("87654321".to_string())),
        Err(CardError::Protocol(ProtocolError::Generic(0x69, 0x85)))
    );
    // A change is not verified by this layer: the card refuses it.
    card.log.clear();
    assert_eq!(
        run(&mut card, change_pin("12345678".to_string(), "abcdefgh12".to_string())),
        Err(CardError::Protocol(ProtocolError::PinRequired))
    );
    assert_eq!(
        card.log,
        vec![
            SELECT.to_vec(),
            [&[0x80, 0x21, 0x08, 0x00, 18][..], b"12345678abcdefgh12"].concat()
        ]
    );
}

#[test]
fn missing_application_is_reported() {
    let mut card = Card::new();
    card.installed = false;
    assert_eq!(
        run(&mut card, get_card_status(None)),
        Err(CardError::Protocol(ProtocolError::ApplicationNotFound))
    );
    assert_eq!(card.log, vec![SELECT.to_vec()]);
    assert_eq!(card.disconnects, 1);
}

#[test]
fn select_failure_is_generic() {
    let mut card = Card::new();
    card.faults.push((0, vec![0x69, 0x82]));
    assert_eq!(
        run(&mut card, erase_card(None)),
        Err(CardError::Protocol(ProtocolError::Generic(0x69, 0x82)))
    );
    let mut card = Card::new();
    card.faults.push((0, vec![0x90]));
    assert_eq!(
        run(&mut card, erase_card(None)),
        Err(CardError::Protocol(ProtocolError::ShortResponse))
    );
}

#[test]
fn failed_write_stops_and_leaves_the_card_erased() {
    let mut card = Card::new();
    append(&mut card, &item("share", "keep", "me"), None).unwrap();
    let sent = card.log.len();
    // SELECT, GET_STATUS, READ, ERASE, SET_TYPE, then the label is refused.
    card.faults.push((sent + 5, vec![0x6A, 0x84]));
    assert_eq!(
        append(&mut card, &item("share", "new", "one"), None),
        Err(CardError::Protocol(ProtocolError::StorageFull))
    );
    assert_eq!(card.log.len(), sent + 6);
    assert!(card.data.is_empty());
}

#[test]
fn corrupted_card_is_given_up_after_a_hundred_chunks() {
    let mut card = Card::holding(b"abc", 1, "odd");
    // The card claims more than it has and pads every chunk.
    let mut events = vec![Event::Connected, Event::Response(ok(vec![])), Event::Response(ok(vec![0xFF, 0xFF, 1, 0, 0, 3, 0]))];
    for _ in 0..101 {
        events.push(Event::Response(ok(vec![b'a'])));
    }
    events.push(Event::Disconnected);
    let (commands, outcome) = script(read_card_items(None), events);
    assert_eq!(outcome, Some(Err(CardError::CorruptedData)));
    assert_eq!(commands.len(), 1 + 1 + 1 + 101 + 1);
    assert_eq!(commands[3], Command::Transmit(vec![0x80, 0x02, 0x00, 0x00]));
    assert_eq!(commands[103], Command::Transmit(vec![0x80, 0x02, 100, 0x00]));
    assert_eq!(commands[104], Command::Disconnect);
    card.connects = 0;
}

#[test]
fn connection_failure_ends_without_disconnect() {
    for kind in [TransportError::Context, TransportError::ReaderName, TransportError::Connect] {
        let (commands, outcome) = script(erase_card(None), vec![Event::Failed(kind)]);
        assert_eq!(commands, vec![Command::Connect]);
        assert_eq!(outcome, Some(Err(CardError::Transport(kind))));
    }
}

#[test]
fn transmit_failure_disconnects_before_the_end() {
    let (commands, outcome) = script(
        read_card_items(None),
        vec![
            Event::Connected,
            Event::Response(ok(vec![])),
            Event::Failed(TransportError::Transmit),
            Event::Disconnected,
        ],
    );
    assert_eq!(
        commands,
        vec![
            Command::Connect,
            Command::Transmit(SELECT.to_vec()),
            Command::Transmit(GET_STATUS.to_vec()),
            Command::Disconnect,
        ]
    );
    assert_eq!(outcome, Some(Err(CardError::Transport(TransportError::Transmit))));
}

#[test]
fn outcome_is_held_back_until_the_disconnect_is_reported() {
    let (commands, outcome) = script(
        force_erase_card(),
        vec![Event::Connected, Event::Response(ok(vec![])), Event::Response(ok(vec![]))],
    );
    assert_eq!(
        commands,
        vec![
            Command::Connect,
            Command::Transmit(SELECT.to_vec()),
            Command::Transmit(ERASE.to_vec()),
            Command::Disconnect,
        ]
    );
    assert_eq!(outcome, None);
}

#[test]
fn report_out_of_turn_is_a_failed_exchange() {
    let (commands, outcome) = script(
        force_erase_card(),
        vec![Event::Connected, Event::Connected, Event::Disconnected],
    );
    assert_eq!(
        commands,
        vec![Command::Connect, Command::Transmit(SELECT.to_vec()), Command::Disconnect]
    );
    assert_eq!(outcome, Some(Err(CardError::Transport(TransportError::Transmit))));
    let (commands, outcome) = script(force_erase_card(), vec![Event::Response(ok(vec![]))]);
    assert_eq!(commands, vec![Command::Connect]);
    assert_eq!(outcome, Some(Err(CardError::Transport(TransportError::Connect))));
}

#[test]
fn operation_can_be_started_from_a_request() {
    let (commands, outcome) = script(
        Operation::start(Request::Erase { pin: None }),
        vec![
            Event::Connected,
            Event::Response(ok(vec![])),
            Event::Response(ok(vec![])),
            Event::Disconnected,
        ],
    );
    assert_eq!(commands.len(), 4);
    assert_eq!(outcome, Some(Ok(Reply::Done)));
}

#[test]
fn reader_names_are_passed_on() {
    assert_eq!(
        list_readers(vec!["Reader 0".to_string(), "Reader 1".to_string()]),
        Ok(vec!["Reader 0".to_string(), "Reader 1".to_string()])
    );
    assert_eq!(list_readers(vec![]), Err(CardError::Transport(TransportError::NoReaders)));
}
