//! The item container: several labelled items kept as one JSON array in the
//! card's single data slot, with a fallback for cards that hold one bare
//! payload.
use vstd::prelude::*;
use vstd::string::StringSliceAdditionalSpecFns;
use vstd::utf8::{decode_utf8, encode_utf8, valid_utf8};
use serde_json::Value;
use crate::apdu::append_bytes;
use crate::error::CardError;
use crate::json::{
    as_array, as_str, distinct_keys, json_array, json_object, json_of, json_parsed, json_printed,
    json_string, jsons_of, member, member_of, members_of, parse_value, print_value, Json,
};
use crate::text::text_from_utf8;
use crate::transfer::{frames, write_data_to_card, write_frames};

verus! {

/// Bytes that the card's data slot holds.
pub const CARD_CAPACITY: usize = 8192;

/// Type byte of a share.
pub const TYPE_SHARE: u8 = 0x01;

/// Type byte of a vault, and of every item container.
pub const TYPE_VAULT: u8 = 0x02;

/// One item on the card.
#[derive(Clone, Debug, PartialEq, Eq)]
pub struct CardItem {
    pub item_type: String,
    pub label: String,
    pub data: String,
}

pub struct ItemView {
    pub item_type: Seq<char>,
    pub label: Seq<char>,
    pub data: Seq<char>,
}

impl View for CardItem {
    type V = ItemView;

    open spec fn view(&self) -> ItemView {
        ItemView { item_type: self.item_type@, label: self.label@, data: self.data@ }
    }
}

impl CardItem {
    /// A copy of the item.
    pub fn duplicate(&self) -> (copy: CardItem)
        ensures
            copy@ == self@,
    {
        CardItem {
            item_type: self.item_type.clone(),
            label: self.label.clone(),
            data: self.data.clone(),
        }
    }
}

/// The views of a list of items.
pub open spec fn item_views(items: Seq<CardItem>) -> Seq<ItemView> {
    items.map_values(|item: CardItem| item@)
}

pub open spec fn key_item_type() -> Seq<char> {
    seq!['i', 't', 'e', 'm', '_', 't', 'y', 'p', 'e']
}

pub open spec fn key_label() -> Seq<char> {
    seq!['l', 'a', 'b', 'e', 'l']
}

pub open spec fn key_data() -> Seq<char> {
    seq!['d', 'a', 't', 'a']
}

/// The name of a type byte: `share` for 1, `vault` for 2, `unknown` for
/// every other.
pub open spec fn kind_name(type_byte: u8) -> Seq<char> {
    if type_byte == 1 {
        seq!['s', 'h', 'a', 'r', 'e']
    } else if type_byte == 2 {
        seq!['v', 'a', 'u', 'l', 't']
    } else {
        seq!['u', 'n', 'k', 'n', 'o', 'w', 'n']
    }
}

/// The object that stands for an item.
pub open spec fn item_json(item: ItemView) -> Json {
    Json::Object(
        seq![
            (key_item_type(), Json::Text(item.item_type)),
            (key_label(), Json::Text(item.label)),
            (key_data(), Json::Text(item.data)),
        ],
    )
}

/// The array that stands for a list of items.
pub open spec fn items_json(items: Seq<ItemView>) -> Json {
    Json::Array(items.map_values(|item: ItemView| item_json(item)))
}

/// The text of a document that is there and is a string.
pub open spec fn text_of(doc: Option<Json>) -> Option<Seq<char>> {
    match doc {
        Some(Json::Text(s)) => Some(s),
        _ => None,
    }
}

/// The item made of three fields, if all three are there.
pub open spec fn fields_item(
    item_type: Option<Seq<char>>,
    label: Option<Seq<char>>,
    data: Option<Seq<char>>,
) -> Option<ItemView> {
    match (item_type, label, data) {
        (Some(t), Some(l), Some(d)) => Some(ItemView { item_type: t, label: l, data: d }),
        _ => None,
    }
}

/// The item that a document stands for: an object whose members
/// `item_type`, `label` and `data` are strings (other members are passed
/// over), or an array of exactly these three strings in this order.
pub open spec fn json_item(doc: Json) -> Option<ItemView> {
    match doc {
        Json::Object(members) => fields_item(
            text_of(member_of(members, key_item_type())),
            text_of(member_of(members, key_label())),
            text_of(member_of(members, key_data())),
        ),
        Json::Array(fields) => if fields.len() == 3 {
            fields_item(
                text_of(Some(fields[0])),
                text_of(Some(fields[1])),
                text_of(Some(fields[2])),
            )
        } else {
            None
        },
        _ => None,
    }
}

/// The items that a document stands for: it is an array and each element
/// stands for an item.
pub open spec fn json_items(doc: Json) -> Option<Seq<ItemView>> {
    match doc {
        Json::Array(elements) => if forall|i: int|
            0 <= i < elements.len() ==> (#[trigger] json_item(elements[i])) is Some {
            Some(elements.map_values(|e: Json| json_item(e)->0))
        } else {
            None
        },
        _ => None,
    }
}

/// The items that a text holds as a JSON array, if it holds any such.
pub open spec fn parsed_items(text: Seq<char>) -> Option<Seq<ItemView>> {
    match json_parsed(text) {
        Some(doc) => json_items(doc),
        None => None,
    }
}

/// The single item that stands for a card with one bare payload.
pub open spec fn legacy_item(text: Seq<char>, type_byte: u8, label: Seq<char>) -> ItemView {
    ItemView { item_type: kind_name(type_byte), label, data: text }
}

/// The items of a card text: those of its JSON array where there is one
/// and it is not empty, and otherwise the whole text as one bare payload.
pub open spec fn items_or_legacy(
    parsed: Option<Seq<ItemView>>,
    text: Seq<char>,
    type_byte: u8,
    label: Seq<char>,
) -> Seq<ItemView> {
    match parsed {
        Some(items) => if items.len() > 0 {
            items
        } else {
            seq![legacy_item(text, type_byte, label)]
        },
        None => seq![legacy_item(text, type_byte, label)],
    }
}

/// The items that the bytes of the data slot hold.  No bytes hold no item;
/// bytes that are not UTF-8 are an error.
pub open spec fn card_items(raw: Seq<u8>, type_byte: u8, label: Seq<char>) -> Result<
    Seq<ItemView>,
    CardError,
> {
    if raw.len() == 0 {
        Ok(Seq::empty())
    } else if !valid_utf8(raw) {
        Err(CardError::Encoding)
    } else {
        Ok(items_or_legacy(parsed_items(decode_utf8(raw)), decode_utf8(raw), type_byte, label))
    }
}

/// The name of a type byte.
pub fn item_type_name(type_byte: u8) -> (name: String)
    ensures
        name@ == kind_name(type_byte),
{
    proof {
        reveal_strlit("share");
        reveal_strlit("vault");
        reveal_strlit("unknown");
    }
    if type_byte == TYPE_SHARE {
        "share".to_owned()
    } else if type_byte == TYPE_VAULT {
        "vault".to_owned()
    } else {
        "unknown".to_owned()
    }
}

/// The text of a value that is there and is a string.
fn text_field(v: Option<&Value>) -> (r: Option<String>)
    ensures
        match r {
            Some(s) => v is Some && text_of(Some(json_of(*v->0))) == Some(s@),
            None => v is Some ==> text_of(Some(json_of(*v->0))) is None,
        },
{
    match v {
        Some(value) => match as_str(value) {
            Some(s) => Some(s.to_owned()),
            None => None,
        },
        None => None,
    }
}

/// Puts three fields together.
fn item_of_fields(item_type: Option<String>, label: Option<String>, data: Option<String>) -> (r:
    Option<CardItem>)
    ensures
        match r {
            Some(item) => item_type is Some && label is Some && data is Some && item@
                == (ItemView { item_type: item_type->0@, label: label->0@, data: data->0@ }),
            None => item_type is None || label is None || data is None,
        },
{
    match (item_type, label, data) {
        (Some(item_type), Some(label), Some(data)) => Some(CardItem { item_type, label, data }),
        _ => None,
    }
}

/// Reads one element of the container.
fn item_from_value(v: &Value) -> (r: Option<CardItem>)
    ensures
        match r {
            Some(item) => json_item(json_of(*v)) == Some(item@),
            None => json_item(json_of(*v)) is None,
        },
{
    proof {
        reveal_strlit("item_type");
        reveal_strlit("label");
        reveal_strlit("data");
        assert("item_type"@ =~= key_item_type());
        assert("label"@ =~= key_label());
        assert("data"@ =~= key_data());
    }
    match as_array(v) {
        Some(fields) => {
            if fields.len() == 3 {
                item_of_fields(
                    text_field(Some(&fields[0])),
                    text_field(Some(&fields[1])),
                    text_field(Some(&fields[2])),
                )
            } else {
                None
            }
        },
        None => {
            let item_type = text_field(member(v, "item_type"));
            let label = text_field(member(v, "label"));
            let data = text_field(member(v, "data"));
            item_of_fields(item_type, label, data)
        },
    }
}

/// Reads a whole container.
fn items_from_value(v: &Value) -> (r: Option<Vec<CardItem>>)
    ensures
        match r {
            Some(items) => json_items(json_of(*v)) == Some(item_views(items@)),
            None => json_items(json_of(*v)) is None,
        },
{
    match as_array(v) {
        Some(elements) => {
            let ghost docs = jsons_of(elements@);
            let mut items: Vec<CardItem> = Vec::new();
            let mut i: usize = 0;
            while i < elements.len()
                invariant
                    i <= elements.len(),
                    docs == jsons_of(elements@),
                    json_of(*v) == Json::Array(docs),
                    items@.len() == i,
                    forall|k: int| 0 <= k < i ==> json_item(#[trigger] docs[k]) == Some(items@[k]@),
                decreases elements.len() - i,
            {
                match item_from_value(&elements[i]) {
                    Some(item) => {
                        items.push(item);
                    },
                    None => {
                        assert(json_item(docs[i as int]) is None);
                        return None;
                    },
                }
                i += 1;
            }
            Some(items)
        },
        None => None,
    }
}

/// Decides between the items that were parsed from a card text and the
/// text as one bare payload.
pub fn wrap_legacy(parsed: Option<Vec<CardItem>>, text: String, type_byte: u8, label: &str) -> (items:
    Vec<CardItem>)
    ensures
        item_views(items@) == items_or_legacy(
            match parsed {
                Some(p) => Some(item_views(p@)),
                None => None,
            },
            text@,
            type_byte,
            label@,
        ),
{
    match parsed {
        Some(p) => {
            if p.len() > 0 {
                return p;
            }
        },
        None => {},
    }
    let mut items: Vec<CardItem> = Vec::new();
    items.push(CardItem { item_type: item_type_name(type_byte), label: label.to_owned(), data: text });
    items
}

/// Reads the items out of the bytes of the data slot.  `type_byte` and
/// `label` come from the status header and serve only for a card that holds
/// one bare payload.
pub fn parse_card_items(raw_data: &[u8], type_byte: u8, label: &str) -> (r: Result<
    Vec<CardItem>,
    CardError,
>)
    ensures
        match r {
            Ok(items) => card_items(raw_data@, type_byte, label@) == Ok::<
                Seq<ItemView>,
                CardError,
            >(item_views(items@)),
            Err(e) => card_items(raw_data@, type_byte, label@) == Err::<Seq<ItemView>, CardError>(e),
        },
{
    if raw_data.len() == 0 {
        let none: Vec<CardItem> = Vec::new();
        assert(item_views(none@) =~= Seq::empty());
        return Ok(none);
    }
    let mut bytes: Vec<u8> = Vec::new();
    append_bytes(&mut bytes, raw_data);
    let text = match text_from_utf8(bytes) {
        Ok(text) => text,
        Err(_) => {
            return Err(CardError::Encoding);
        },
    };
    let parsed = match parse_value(text.as_str()) {
        Ok(v) => items_from_value(&v),
        Err(_) => None,
    };
    Ok(wrap_legacy(parsed, text, type_byte, label))
}

/// The character of a decimal digit.
pub open spec fn digit_char(d: nat) -> char {
    if d == 0 {
        '0'
    } else if d == 1 {
        '1'
    } else if d == 2 {
        '2'
    } else if d == 3 {
        '3'
    } else if d == 4 {
        '4'
    } else if d == 5 {
        '5'
    } else if d == 6 {
        '6'
    } else if d == 7 {
        '7'
    } else if d == 8 {
        '8'
    } else {
        '9'
    }
}

/// A number in decimal, without leading zeros.
pub open spec fn decimal(n: nat) -> Seq<char>
    decreases n,
{
    if n < 10 {
        seq![digit_char(n)]
    } else {
        decimal(n / 10).push(digit_char(n % 10))
    }
}

/// The label that a container of `count` items is stored under:
/// `1 item`, and `<count> items` for every other count.
pub open spec fn summary_label(count: nat) -> Seq<char> {
    decimal(count) + seq![' ', 'i', 't', 'e', 'm'] + if count == 1 {
        Seq::<char>::empty()
    } else {
        seq!['s']
    }
}

/// The bytes of a container text, refused where they are more than the
/// card holds.
pub open spec fn sized_payload(text: Seq<char>) -> Result<Seq<u8>, CardError> {
    let bytes = encode_utf8(text);
    if bytes.len() > 8192 {
        Err(CardError::CapacityExceeded { size: bytes.len() as usize })
    } else {
        Ok(bytes)
    }
}

/// The bytes that a list of items is stored as.
pub open spec fn items_payload(items: Seq<ItemView>) -> Result<Seq<u8>, CardError> {
    match json_printed(items_json(items)) {
        Some(text) => sized_payload(text),
        None => Err(CardError::Encoding),
    }
}

/// The commands that store a list of items, or the error that keeps them
/// from being stored.
pub open spec fn items_frames(items: Seq<ItemView>) -> Result<Seq<Seq<u8>>, CardError> {
    match items_payload(items) {
        Ok(bytes) => Ok(write_frames(bytes, TYPE_VAULT, summary_label(items.len()))),
        Err(e) => Err(e),
    }
}

fn digit_text(d: usize) -> (s: &'static str)
    requires
        d < 10,
    ensures
        s@ == seq![digit_char(d as nat)],
{
    proof {
        reveal_strlit("0");
        reveal_strlit("1");
        reveal_strlit("2");
        reveal_strlit("3");
        reveal_strlit("4");
        reveal_strlit("5");
        reveal_strlit("6");
        reveal_strlit("7");
        reveal_strlit("8");
        reveal_strlit("9");
    }
    if d == 0 {
        "0"
    } else if d == 1 {
        "1"
    } else if d == 2 {
        "2"
    } else if d == 3 {
        "3"
    } else if d == 4 {
        "4"
    } else if d == 5 {
        "5"
    } else if d == 6 {
        "6"
    } else if d == 7 {
        "7"
    } else if d == 8 {
        "8"
    } else {
        "9"
    }
}

/// Writes a number in decimal.
pub fn decimal_text(n: usize) -> (s: String)
    ensures
        s@ == decimal(n as nat),
    decreases n,
{
    if n < 10 {
        digit_text(n).to_owned()
    } else {
        let mut s = decimal_text(n / 10);
        s.append(digit_text(n % 10));
        s
    }
}

/// Writes the label for a container of `count` items.
pub fn summary_label_text(count: usize) -> (s: String)
    ensures
        s@ == summary_label(count as nat),
{
    proof {
        reveal_strlit(" item");
        reveal_strlit("s");
    }
    let mut s = decimal_text(count);
    s.append(" item");
    if count != 1 {
        s.append("s");
    }
    s
}

/// Writes one item as a JSON object.
fn item_to_value(item: &CardItem) -> (v: Value)
    ensures
        json_of(v) == item_json(item@),
{
    proof {
        reveal_strlit("item_type");
        reveal_strlit("label");
        reveal_strlit("data");
    }
    let mut pairs: Vec<(String, Value)> = Vec::new();
    pairs.push(("item_type".to_owned(), json_string(item.item_type.clone())));
    pairs.push(("label".to_owned(), json_string(item.label.clone())));
    pairs.push(("data".to_owned(), json_string(item.data.clone())));
    assert(pairs@[0].0@ =~= key_item_type());
    assert(pairs@[1].0@ =~= key_label());
    assert(pairs@[2].0@ =~= key_data());
    assert(members_of(pairs@) =~= seq![
        (key_item_type(), Json::Text(item.item_type@)),
        (key_label(), Json::Text(item.label@)),
        (key_data(), Json::Text(item.data@)),
    ]);
    json_object(pairs)
}

/// Writes a list of items as a JSON array.
fn items_to_value(items: &Vec<CardItem>) -> (v: Value)
    ensures
        json_of(v) == items_json(item_views(items@)),
{
    let mut values: Vec<Value> = Vec::new();
    let mut i: usize = 0;
    while i < items.len()
        invariant
            i <= items.len(),
            values@.len() == i,
            forall|k: int| 0 <= k < i ==> json_of(#[trigger] values@[k]) == item_json(items@[k]@),
        decreases items.len() - i,
    {
        values.push(item_to_value(&items[i]));
        i += 1;
    }
    assert(jsons_of(values@) =~= item_views(items@).map_values(|item: ItemView| item_json(item)));
    json_array(values)
}

/// Turns a container text into the bytes to store, unless they are more
/// than the card holds.
pub fn check_capacity(text: &str) -> (r: Result<Vec<u8>, CardError>)
    ensures
        match r {
            Ok(bytes) => sized_payload(text@) == Ok::<Seq<u8>, CardError>(bytes@),
            Err(e) => sized_payload(text@) == Err::<Seq<u8>, CardError>(e),
        },
{
    let raw = text.as_bytes();
    if raw.len() > CARD_CAPACITY {
        return Err(CardError::CapacityExceeded { size: raw.len() });
    }
    let mut bytes: Vec<u8> = Vec::new();
    append_bytes(&mut bytes, raw);
    Ok(bytes)
}

/// Serializes a list of items into the bytes of the data slot.  It fails
/// where the JSON library fails and where the bytes are more than the card
/// holds.
pub fn encode_items(items: &Vec<CardItem>) -> (r: Result<Vec<u8>, CardError>)
    ensures
        match r {
            Ok(bytes) => items_payload(item_views(items@)) == Ok::<Seq<u8>, CardError>(bytes@),
            Err(e) => items_payload(item_views(items@)) == Err::<Seq<u8>, CardError>(e),
        },
{
    let doc = items_to_value(items);
    match print_value(&doc) {
        Ok(text) => check_capacity(text.as_str()),
        Err(_) => Err(CardError::Encoding),
    }
}

/// Plans the storing of a list of items: the container is written as a
/// vault under the label that counts the items.  Where the items cannot be
/// stored there is no command to send.
pub fn write_items_to_card(items: &Vec<CardItem>) -> (r: Result<Vec<Vec<u8>>, CardError>)
    ensures
        match r {
            Ok(cmds) => items_frames(item_views(items@)) == Ok::<Seq<Seq<u8>>, CardError>(
                frames(cmds@),
            ),
            Err(e) => items_frames(item_views(items@)) == Err::<Seq<Seq<u8>>, CardError>(e),
        },
{
    let bytes = match encode_items(items) {
        Ok(bytes) => bytes,
        Err(e) => {
            return Err(e);
        },
    };
    let label = summary_label_text(items.len());
    Ok(write_data_to_card(bytes.as_slice(), TYPE_VAULT, label.as_str()))
}

/// Whether the JSON library reads back, from the text that it writes for
/// a document, that same document.
pub open spec fn reads_back(doc: Json) -> bool {
    match json_printed(doc) {
        Some(text) => text.len() > 0 && json_parsed(text) == Some(doc),
        None => false,
    }
}

/// The JSON document of an item stands for that item.
pub proof fn lemma_item_json(item: ItemView)
    ensures
        json_item(item_json(item)) == Some(item),
{
    reveal_with_fuel(member_of, 4);
}

/// The JSON document of a list of items stands for that list: of what
/// encoding builds, decoding makes the same items again.
pub proof fn lemma_items_json(items: Seq<ItemView>)
    ensures
        json_items(items_json(items)) == Some(items),
{
    let elements = items.map_values(|item: ItemView| item_json(item));
    assert forall|i: int| 0 <= i < elements.len() implies (#[trigger] json_item(elements[i]))
        == Some(items[i]) by {
        lemma_item_json(items[i]);
    }
}

/// Round trip: for a list of items that is not empty and whose bytes fit
/// the card, decoding the encoded bytes gives the list again, whatever
/// type byte and label the status header had.  This holds of every list
/// whose JSON text the library reads back.
pub proof fn lemma_decode_encode(items: Seq<ItemView>, type_byte: u8, label: Seq<char>)
    requires
        items.len() > 0,
    ensures
        reads_back(items_json(items)) ==> match items_payload(items) {
            Ok(bytes) => card_items(bytes, type_byte, label) == Ok::<Seq<ItemView>, CardError>(
                items,
            ),
            Err(e) => e is CapacityExceeded,
        },
{
    if reads_back(items_json(items)) {
        let text = json_printed(items_json(items))->0;
        vstd::utf8::encode_utf8_valid_utf8(text);
        vstd::utf8::encode_utf8_decode_utf8(text);
        lemma_items_json(items);
    }
}

/// Capacity: a list of items whose JSON text has more than 8192 bytes has
/// no payload and no store sequence, only the error that names the size.
pub proof fn lemma_capacity(items: Seq<ItemView>)
    ensures
        match json_printed(items_json(items)) {
            Some(text) => {
                let size = encode_utf8(text).len();
                if size > 8192 {
                    items_payload(items) == Err::<Seq<u8>, CardError>(
                        CardError::CapacityExceeded { size: size as usize },
                    ) && items_frames(items) == Err::<Seq<Seq<u8>>, CardError>(
                        CardError::CapacityExceeded { size: size as usize },
                    )
                } else {
                    items_payload(items) == Ok::<Seq<u8>, CardError>(encode_utf8(text))
                }
            },
            None => items_payload(items) == Err::<Seq<u8>, CardError>(CardError::Encoding),
        },
{
}

/// Legacy fallback: card text that is not read as a JSON array of items,
/// or as an empty one, decodes to one item, whose type is the name of the
/// status header's type byte, whose label is the header's label, and
/// whose data is the text.
pub proof fn lemma_legacy(raw: Seq<u8>, type_byte: u8, label: Seq<char>)
    requires
        raw.len() > 0,
        valid_utf8(raw),
    ensures
        (match parsed_items(decode_utf8(raw)) {
            Some(items) => items.len() == 0,
            None => true,
        }) ==> card_items(raw, type_byte, label) == Ok::<Seq<ItemView>, CardError>(
            seq![
                ItemView { item_type: kind_name(type_byte), label, data: decode_utf8(raw) },
            ],
        ),
        type_byte == 1 ==> kind_name(type_byte) == seq!['s', 'h', 'a', 'r', 'e'],
        type_byte == 2 ==> kind_name(type_byte) == seq!['v', 'a', 'u', 'l', 't'],
        type_byte != 1 && type_byte != 2 ==> kind_name(type_byte) == seq![
            'u',
            'n',
            'k',
            'n',
            'o',
            'w',
            'n',
        ],
{
}

} // verus!
