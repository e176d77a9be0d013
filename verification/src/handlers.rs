//! The handlers: each reads its input from the path and the request, changes
//! the state it owns, and answers with the data to render.

use vstd::prelude::*;
use crate::filter::filter_of_name;
use crate::form::{field_of_body, form_field};
use crate::reply::{ParamName, Reply, ReplyView, Summary};
use crate::request::Request;
use crate::router::{first_value, Params};
use crate::store::{
    all_checked, all_set, count_active, every_done, first_with_id, lemma_first_with_id, listing,
    next_id, toggled_items, ItemView, StoreView, TodoStore,
};
use crate::text::{parse_u32, u32_of_text};

verus! {

/// The summary of the given items.
pub open spec fn summary_of(items: Seq<ItemView>) -> Summary {
    Summary { remaining: count_active(items) as usize, all_done: all_checked(items) }
}

/// The store with other items.
pub open spec fn with_items(store: StoreView, items: Seq<ItemView>) -> StoreView {
    StoreView { items, last_id: store.last_id, filter: store.filter }
}

/// The id that the path gave, or the reply that says why it gave none.
/// `report` says whether a missing id is reported with the parameters found.
pub open spec fn id_of(params: Seq<(Seq<char>, Seq<char>)>, report: bool) -> Result<
    u32,
    ReplyView,
> {
    match first_value(params, "id"@) {
        None => Err(
            ReplyView::MissingParam {
                name: ParamName::Id,
                got: if report {
                    Some(params)
                } else {
                    None
                },
            },
        ),
        Some(text) => match u32_of_text(text) {
            None => Err(ReplyView::InvalidParam { name: ParamName::Id }),
            Some(id) => Ok(id),
        },
    }
}

/// The name of the form field that holds the label of a new item.
pub open spec fn label_field() -> Seq<char> {
    "todo-new"@
}

/// The click counter: each click adds one, and the count after it is shown.
pub open spec fn clicked(clicks: u64, url: Seq<char>) -> (u64, ReplyView) {
    (((clicks + 1) as u64), ReplyView::Clicked { url, clicks: (clicks + 1) as u64 })
}

/// The count after `n` more clicks.
pub open spec fn after_clicks(clicks: u64, n: nat) -> u64
    decreases n,
{
    if n == 0 {
        clicks
    } else {
        clicked(after_clicks(clicks, (n - 1) as nat), Seq::empty()).0
    }
}

/// Clicks count up one by one: while the counter has room, the count after
/// `n` clicks is `n` more than before, so from zero the clicks show 1, 2, 3
/// and so on without a gap. The url plays no part in the count.
pub proof fn lemma_clicks_count_up(clicks: u64, n: nat, url: Seq<char>)
    requires
        clicks + n <= u64::MAX,
    ensures
        after_clicks(clicks, n) == clicks + n,
        n > 0 ==> clicked(after_clicks(clicks, (n - 1) as nat), url) == (
            (clicks + n) as u64,
            ReplyView::Clicked { url, clicks: (clicks + n) as u64 },
        ),
        n > 0 ==> after_clicks(clicks, (n - 1) as nat) < after_clicks(clicks, n),
    decreases n,
{
    if n > 0 {
        lemma_clicks_count_up(clicks, (n - 1) as nat, url);
    }
}

/// Adding the item that a form body names.
pub open spec fn added(store: StoreView, body: Seq<char>) -> (StoreView, ReplyView) {
    match field_of_body(body, label_field()) {
        Err(error) => (store, ReplyView::BadForm { error }),
        Ok(label) => {
            let item = ItemView { id: next_id(store.last_id), done: false, label };
            let items = store.items.push(item);
            (
                StoreView { items, last_id: next_id(store.last_id), filter: store.filter },
                ReplyView::Added { item, summary: summary_of(items) },
            )
        },
    }
}

/// Deleting the item that the path names.
pub open spec fn deleted(store: StoreView, params: Seq<(Seq<char>, Seq<char>)>) -> (
    StoreView,
    ReplyView,
) {
    match id_of(params, false) {
        Err(reply) => (store, reply),
        Ok(id) => {
            let k = first_with_id(store.items, id);
            let items = if 0 <= k < store.items.len() {
                store.items.remove(k)
            } else {
                store.items
            };
            (with_items(store, items), ReplyView::Deleted { summary: summary_of(items) })
        },
    }
}

/// Toggling the item that the path names.
pub open spec fn toggled(store: StoreView, params: Seq<(Seq<char>, Seq<char>)>) -> (
    StoreView,
    ReplyView,
) {
    match id_of(params, true) {
        Err(reply) => (store, reply),
        Ok(id) => {
            let k = first_with_id(store.items, id);
            if 0 <= k < store.items.len() {
                let items = toggled_items(store.items, id);
                (
                    with_items(store, items),
                    ReplyView::Toggled {
                        item: if store.filter.admits(items[k].done) {
                            Some(items[k])
                        } else {
                            None
                        },
                        summary: summary_of(items),
                    },
                )
            } else {
                (store, ReplyView::NoSuchItem)
            }
        },
    }
}

/// Toggling all items.
pub open spec fn toggled_all(store: StoreView) -> (StoreView, ReplyView) {
    let items = all_set(store.items, !every_done(store.items));
    (
        with_items(store, items),
        ReplyView::ToggledAll {
            items: if store.items.len() > 0 {
                Some(listing(items, store.filter))
            } else {
                None
            },
            summary: summary_of(items),
        },
    )
}

/// Setting the filter that the path names.
pub open spec fn filtered(store: StoreView, params: Seq<(Seq<char>, Seq<char>)>) -> (
    StoreView,
    ReplyView,
) {
    match first_value(params, "filter"@) {
        None => (store, ReplyView::MissingParam { name: ParamName::Filter, got: None }),
        Some(name) => match filter_of_name(name) {
            None => (store, ReplyView::InvalidParam { name: ParamName::Filter }),
            Some(filter) => (
                StoreView { items: store.items, last_id: store.last_id, filter },
                ReplyView::Filtered { filter, items: listing(store.items, filter) },
            ),
        },
    }
}

/// The summary of the store.
pub fn summary(store: &TodoStore) -> (summary: Summary)
    ensures
        summary == summary_of(store@.items),
{
    Summary { remaining: store.remaining(), all_done: store.all_done() }
}

/// Reads the id from the parameters of the path.
fn read_id(params: &Params, report: bool) -> (id: Result<u32, Reply>)
    ensures
        match id {
            Ok(n) => id_of(params@, report) == Ok::<u32, ReplyView>(n),
            Err(reply) => id_of(params@, report) == Err::<u32, ReplyView>(reply@),
        },
{
    match params.get("id") {
        None => {
            let got = if report {
                Some(params.to_pairs())
            } else {
                None
            };
            Err(Reply::MissingParam { name: ParamName::Id, got })
        },
        Some(text) => match parse_u32(text) {
            None => Err(Reply::InvalidParam { name: ParamName::Id }),
            Some(id) => Ok(id),
        },
    }
}

/// Counts a click and answers with the count after it.
pub fn about_clicked(clicks: &mut u64, url: &str) -> (reply: Reply)
    requires
        *old(clicks) < u64::MAX,
    ensures
        *final(clicks) == *old(clicks) + 1,
        (*final(clicks), reply@) == clicked(*old(clicks), url@),
{
    *clicks = *clicks + 1;
    Reply::Clicked { url: url.to_owned(), clicks: *clicks }
}

/// Adds the item whose label the form body of the request gives under
/// `todo-new`. A body that does not give exactly one leaves the list as it
/// was.
pub fn hx_add(store: &mut TodoStore, request: &Request) -> (reply: Reply)
    ensures
        (final(store)@, reply@) == added(old(store)@, request@.body),
{
    match form_field(request.body(), "todo-new") {
        Err(error) => Reply::BadForm { error },
        Ok(label) => {
            let added = store.add(label);
            Reply::Added {
                item: added.item,
                summary: Summary { remaining: added.remaining, all_done: added.all_done },
            }
        },
    }
}

/// Deletes the item whose id the path gives. An id that no item has is no
/// error: the list stays as it was.
pub fn hx_delete(store: &mut TodoStore, params: &Params) -> (reply: Reply)
    ensures
        (final(store)@, reply@) == deleted(old(store)@, params@),
{
    match read_id(params, false) {
        Err(reply) => reply,
        Ok(id) => {
            proof {
                lemma_first_with_id(store@.items, id);
            }
            store.delete(id);
            Reply::Deleted { summary: summary(store) }
        },
    }
}

/// Toggles the item whose id the path gives. Where the id cannot be read or
/// no item has it, the list stays as it was.
pub fn hx_toggle(store: &mut TodoStore, params: &Params) -> (reply: Reply)
    ensures
        (final(store)@, reply@) == toggled(old(store)@, params@),
{
    match read_id(params, true) {
        Err(reply) => reply,
        Ok(id) => match store.toggle(id) {
            Err(_) => Reply::NoSuchItem,
            Ok(toggled) => {
                let item = if toggled.visible {
                    Some(toggled.item)
                } else {
                    None
                };
                Reply::Toggled { item, summary: summary(store) }
            },
        },
    }
}

/// Toggles all items. The shown items are given only where any changed.
pub fn hx_toggleall(store: &mut TodoStore) -> (reply: Reply)
    ensures
        (final(store)@, reply@) == toggled_all(old(store)@),
{
    let dirty = store.toggle_all();
    let items = if dirty {
        Some(store.list(store.filter()))
    } else {
        None
    };
    Reply::ToggledAll { items, summary: summary(store) }
}

/// Sets the filter that the path names. A name that is no filter leaves the
/// active filter as it was.
pub fn hx_filter(store: &mut TodoStore, params: &Params) -> (reply: Reply)
    ensures
        (final(store)@, reply@) == filtered(old(store)@, params@),
{
    match params.get("filter") {
        None => Reply::MissingParam { name: ParamName::Filter, got: None },
        Some(name) => match store.set_filter(name) {
            Err(_) => Reply::InvalidParam { name: ParamName::Filter },
            Ok(()) => {
                let filter = store.filter();
                Reply::Filtered { filter, items: store.list(filter) }
            },
        },
    }
}

} // verus!
