//! What a status query reports, and the item-level choices of the read and
//! delete operations.
use vstd::prelude::*;
use vstd::string::StringSliceAdditionalSpecFns;
use vstd::utf8::encode_utf8;
use crate::error::CardError;
use crate::items::{item_type_name, item_views, kind_name, CardItem, ItemView, CARD_CAPACITY};
use crate::transfer::{StatusHeader, StatusHeaderView};

verus! {

/// An item without its data, for display.
#[derive(Clone, Debug, PartialEq, Eq)]
pub struct CardItemSummary {
    pub index: usize,
    pub item_type: String,
    pub label: String,
    pub data_size: usize,
}

pub struct SummaryView {
    pub index: nat,
    pub item_type: Seq<char>,
    pub label: Seq<char>,
    pub data_size: nat,
}

impl View for CardItemSummary {
    type V = SummaryView;

    open spec fn view(&self) -> SummaryView {
        SummaryView {
            index: self.index as nat,
            item_type: self.item_type@,
            label: self.label@,
            data_size: self.data_size as nat,
        }
    }
}

/// The state of a card as one status query found it.
#[derive(Clone, Debug, PartialEq, Eq)]
pub struct CardStatus {
    pub has_data: bool,
    pub data_length: u16,
    pub total_items: usize,
    pub items: Vec<CardItemSummary>,
    pub pin_set: bool,
    pub pin_verified: bool,
    pub pin_retries_remaining: u8,
    pub free_bytes_estimate: i32,
}

pub struct StatusView {
    pub has_data: bool,
    pub data_length: nat,
    pub total_items: nat,
    pub items: Seq<SummaryView>,
    pub pin_set: bool,
    pub pin_verified: bool,
    pub pin_retries_remaining: u8,
    pub free_bytes_estimate: int,
}

/// The views of a list of summaries.
pub open spec fn summary_views(summaries: Seq<CardItemSummary>) -> Seq<SummaryView> {
    summaries.map_values(|s: CardItemSummary| s@)
}

impl View for CardStatus {
    type V = StatusView;

    open spec fn view(&self) -> StatusView {
        StatusView {
            has_data: self.has_data,
            data_length: self.data_length as nat,
            total_items: self.total_items as nat,
            items: summary_views(self.items@),
            pin_set: self.pin_set,
            pin_verified: self.pin_verified,
            pin_retries_remaining: self.pin_retries_remaining,
            free_bytes_estimate: self.free_bytes_estimate as int,
        }
    }
}

/// The summary of the item at `index`: its type, its label and the number
/// of bytes of its data.
pub open spec fn summary_of(index: int, item: ItemView) -> SummaryView {
    SummaryView {
        index: index as nat,
        item_type: item.item_type,
        label: item.label,
        data_size: encode_utf8(item.data).len(),
    }
}

/// The summaries of a list of items, in order.
pub open spec fn summaries_of(items: Seq<ItemView>) -> Seq<SummaryView> {
    Seq::new(items.len(), |i: int| summary_of(i, items[i]))
}

/// The one summary that stands for data that could not be read or
/// decoded: type, label and length are those of the status header.
pub open spec fn fallback_summaries(header: StatusHeaderView) -> Seq<SummaryView> {
    seq![
        SummaryView {
            index: 0,
            item_type: kind_name(header.data_type),
            label: header.label,
            data_size: header.data_length,
        },
    ]
}

/// The status that a header and the summaries of the items make.  The
/// free space is an estimate: the capacity less the declared length.
pub open spec fn status_of(header: StatusHeaderView, summaries: Seq<SummaryView>) -> StatusView {
    StatusView {
        has_data: header.data_length > 0,
        data_length: header.data_length,
        total_items: summaries.len(),
        items: summaries,
        pin_set: header.pin_set,
        pin_verified: header.pin_verified,
        pin_retries_remaining: header.pin_retries,
        free_bytes_estimate: 8192 - header.data_length,
    }
}

/// The item at an index, or the range error that names the index and the
/// number of items.
pub open spec fn item_at(items: Seq<ItemView>, index: nat) -> Result<ItemView, CardError> {
    if index < items.len() {
        Ok(items[index as int])
    } else {
        Err(CardError::Range { index: index as usize, count: items.len() as usize })
    }
}

/// The items without the one at an index, or the same range error.
pub open spec fn items_without(items: Seq<ItemView>, index: nat) -> Result<
    Seq<ItemView>,
    CardError,
> {
    if index < items.len() {
        Ok(items.remove(index as int))
    } else {
        Err(CardError::Range { index: index as usize, count: items.len() as usize })
    }
}

/// Summarizes the items of a card.
pub fn item_summaries(items: &Vec<CardItem>) -> (summaries: Vec<CardItemSummary>)
    ensures
        summary_views(summaries@) == summaries_of(item_views(items@)),
{
    let mut summaries: Vec<CardItemSummary> = Vec::new();
    let mut i: usize = 0;
    while i < items.len()
        invariant
            i <= items.len(),
            summaries@.len() == i,
            forall|k: int| 0 <= k < i ==> (#[trigger] summaries@[k])@ == summary_of(k, items@[k]@),
        decreases items.len() - i,
    {
        let item = &items[i];
        summaries.push(
            CardItemSummary {
                index: i,
                item_type: item.item_type.clone(),
                label: item.label.clone(),
                data_size: item.data.as_str().as_bytes().len(),
            },
        );
        i += 1;
    }
    summaries
}

/// Summarizes data that could not be read or decoded.
pub fn fallback_summary(header: &StatusHeader) -> (summaries: Vec<CardItemSummary>)
    ensures
        summary_views(summaries@) == fallback_summaries(header@),
{
    let mut summaries: Vec<CardItemSummary> = Vec::new();
    summaries.push(
        CardItemSummary {
            index: 0,
            item_type: item_type_name(header.data_type),
            label: header.label.clone(),
            data_size: header.data_length as usize,
        },
    );
    summaries
}

/// Puts a status together.
pub fn card_status(header: &StatusHeader, summaries: Vec<CardItemSummary>) -> (status: CardStatus)
    ensures
        status@ == status_of(header@, summary_views(summaries@)),
{
    CardStatus {
        has_data: header.data_length > 0,
        data_length: header.data_length,
        total_items: summaries.len(),
        items: summaries,
        pin_set: header.pin_set,
        pin_verified: header.pin_verified,
        pin_retries_remaining: header.pin_retries,
        free_bytes_estimate: CARD_CAPACITY as i32 - header.data_length as i32,
    }
}

/// Picks the item at an index.
pub fn select_item(items: &Vec<CardItem>, index: usize) -> (r: Result<CardItem, CardError>)
    ensures
        match r {
            Ok(item) => item_at(item_views(items@), index as nat) == Ok::<ItemView, CardError>(
                item@,
            ),
            Err(e) => item_at(item_views(items@), index as nat) == Err::<ItemView, CardError>(e),
        },
{
    if index < items.len() {
        Ok(items[index].duplicate())
    } else {
        Err(CardError::Range { index, count: items.len() })
    }
}

/// Takes the item at an index out of the list.
pub fn remove_item(items: Vec<CardItem>, index: usize) -> (r: Result<Vec<CardItem>, CardError>)
    ensures
        match r {
            Ok(rest) => items_without(item_views(items@), index as nat) == Ok::<
                Seq<ItemView>,
                CardError,
            >(item_views(rest@)),
            Err(e) => items_without(item_views(items@), index as nat) == Err::<
                Seq<ItemView>,
                CardError,
            >(e),
        },
{
    if index < items.len() {
        let mut rest = items;
        let _ = rest.remove(index);
        assert(item_views(rest@) =~= item_views(items@).remove(index as int));
        Ok(rest)
    } else {
        Err(CardError::Range { index, count: items.len() })
    }
}

/// Index errors: an index at or past the number of items is answered,
/// for reading and for deleting alike, with the range error that names
/// the index and the number of items; every smaller index is served.
pub proof fn lemma_index_range(items: Seq<ItemView>, index: nat)
    ensures
        index >= items.len() ==> item_at(items, index) == Err::<ItemView, CardError>(
            CardError::Range { index: index as usize, count: items.len() as usize },
        ) && items_without(items, index) == Err::<Seq<ItemView>, CardError>(
            CardError::Range { index: index as usize, count: items.len() as usize },
        ),
        index < items.len() ==> item_at(items, index) == Ok::<ItemView, CardError>(
            items[index as int],
        ) && items_without(items, index) is Ok && items_without(items, index)->Ok_0.len()
            == items.len() - 1,
{
}

} // verus!
