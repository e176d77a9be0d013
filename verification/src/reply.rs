//! What a handler answers: the data of the page or fragment to render. The
//! markup itself is the caller's.

use vstd::prelude::*;
use crate::filter::Filter;
use crate::form::FormError;
use crate::router::{pair_views, MatchFailure};
use crate::store::{item_views, Item, ItemView};

verus! {

/// The two aggregates that every change of the list refreshes.
#[derive(Clone, Copy, Debug, PartialEq, Eq, Structural)]
pub struct Summary {
    /// How many items are not done.
    pub remaining: usize,
    /// Whether there is an item and every item is done.
    pub all_done: bool,
}

/// The parameter that a handler reads from the path.
#[derive(Clone, Copy, Debug, PartialEq, Eq, Structural)]
pub enum ParamName {
    Id,
    Filter,
}

/// The data of a reply.
#[derive(Debug)]
#[allow(inconsistent_fields)]
pub enum Reply {
    /// The about page, whole.
    AboutPage { url: String, clicks: u64 },
    /// The about page, below the title.
    AboutNav { url: String, clicks: u64 },
    /// The click counter after a click.
    Clicked { url: String, clicks: u64 },
    /// The list page, whole: the items that the active filter shows.
    TodosPage { items: Vec<Item>, filter: Filter, summary: Summary },
    /// The list page, below the title.
    TodosNav { items: Vec<Item>, filter: Filter, summary: Summary },
    /// An item was added.
    Added { item: Item, summary: Summary },
    /// An item was deleted, or none had the id.
    Deleted { summary: Summary },
    /// An item was toggled; it is given where the active filter still shows it.
    Toggled { item: Option<Item>, summary: Summary },
    /// All items were toggled; the shown items are given where any changed.
    ToggledAll { items: Option<Vec<Item>>, summary: Summary },
    /// The filter was set; the items it shows.
    Filtered { filter: Filter, items: Vec<Item> },
    /// The path gave no parameter of that name. Some handlers report the
    /// parameters that it did give.
    MissingParam { name: ParamName, got: Option<Vec<(String, String)>> },
    /// The parameter could not be read.
    InvalidParam { name: ParamName },
    /// The form body gave no label.
    BadForm { error: FormError },
    /// No item has the id.
    NoSuchItem,
    /// No route matches the path.
    NotFound,
    /// A route matches the path but for a slash at its end.
    MatchFailed { failure: MatchFailure },
    /// The routes could not be registered.
    RouterUnavailable { reason: String },
    /// The bytes of the host gave no request.
    DecodeFailed,
}

/// What a [`Reply`] is to a contract.
#[allow(inconsistent_fields)]
pub enum ReplyView {
    AboutPage { url: Seq<char>, clicks: u64 },
    AboutNav { url: Seq<char>, clicks: u64 },
    Clicked { url: Seq<char>, clicks: u64 },
    TodosPage { items: Seq<ItemView>, filter: Filter, summary: Summary },
    TodosNav { items: Seq<ItemView>, filter: Filter, summary: Summary },
    Added { item: ItemView, summary: Summary },
    Deleted { summary: Summary },
    Toggled { item: Option<ItemView>, summary: Summary },
    ToggledAll { items: Option<Seq<ItemView>>, summary: Summary },
    Filtered { filter: Filter, items: Seq<ItemView> },
    MissingParam { name: ParamName, got: Option<Seq<(Seq<char>, Seq<char>)>> },
    InvalidParam { name: ParamName },
    BadForm { error: FormError },
    NoSuchItem,
    NotFound,
    MatchFailed { failure: MatchFailure },
    RouterUnavailable { reason: Seq<char> },
    DecodeFailed,
}

impl View for Reply {
    type V = ReplyView;

    open spec fn view(&self) -> ReplyView {
        match *self {
            Reply::AboutPage { url, clicks } => ReplyView::AboutPage { url: url@, clicks },
            Reply::AboutNav { url, clicks } => ReplyView::AboutNav { url: url@, clicks },
            Reply::Clicked { url, clicks } => ReplyView::Clicked { url: url@, clicks },
            Reply::TodosPage { items, filter, summary } => ReplyView::TodosPage {
                items: item_views(items@),
                filter,
                summary,
            },
            Reply::TodosNav { items, filter, summary } => ReplyView::TodosNav {
                items: item_views(items@),
                filter,
                summary,
            },
            Reply::Added { item, summary } => ReplyView::Added { item: item@, summary },
            Reply::Deleted { summary } => ReplyView::Deleted { summary },
            Reply::Toggled { item, summary } => ReplyView::Toggled {
                item: match item {
                    Some(i) => Some(i@),
                    None => None,
                },
                summary,
            },
            Reply::ToggledAll { items, summary } => ReplyView::ToggledAll {
                items: match items {
                    Some(i) => Some(item_views(i@)),
                    None => None,
                },
                summary,
            },
            Reply::Filtered { filter, items } => ReplyView::Filtered {
                filter,
                items: item_views(items@),
            },
            Reply::MissingParam { name, got } => ReplyView::MissingParam {
                name,
                got: match got {
                    Some(g) => Some(pair_views(g@)),
                    None => None,
                },
            },
            Reply::InvalidParam { name } => ReplyView::InvalidParam { name },
            Reply::BadForm { error } => ReplyView::BadForm { error },
            Reply::NoSuchItem => ReplyView::NoSuchItem,
            Reply::NotFound => ReplyView::NotFound,
            Reply::MatchFailed { failure } => ReplyView::MatchFailed { failure },
            Reply::RouterUnavailable { reason } => ReplyView::RouterUnavailable { reason: reason@ },
            Reply::DecodeFailed => ReplyView::DecodeFailed,
        }
    }
}

} // verus!
