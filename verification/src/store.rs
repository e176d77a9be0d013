//! The list of items, the source of their ids and the active filter.

use vstd::prelude::*;
use crate::filter::{filter_of_name, Filter, InvalidFilterError};

verus! {

/// One entry of the list.
#[derive(Debug)]
pub struct Item {
    pub id: u32,
    pub done: bool,
    pub label: String,
}

/// What an [`Item`] is to a contract.
pub struct ItemView {
    pub id: u32,
    pub done: bool,
    pub label: Seq<char>,
}

impl View for Item {
    type V = ItemView;

    open spec fn view(&self) -> ItemView {
        ItemView { id: self.id, done: self.done, label: self.label@ }
    }
}

impl Clone for Item {
    fn clone(&self) -> (copy: Item)
        ensures
            copy@ == self@,
    {
        Item { id: self.id, done: self.done, label: self.label.clone() }
    }
}

/// The views of a run of items, in the same order.
pub open spec fn item_views(items: Seq<Item>) -> Seq<ItemView> {
    items.map_values(|item: Item| item@)
}

/// The id that follows `last`: one more, and zero after the largest.
pub open spec fn next_id(last: u32) -> u32 {
    if last == u32::MAX {
        0
    } else {
        (last + 1) as u32
    }
}

/// How many of the items are not done.
pub open spec fn count_active(items: Seq<ItemView>) -> nat
    decreases items.len(),
{
    if items.len() == 0 {
        0
    } else {
        count_active(items.drop_last()) + if items.last().done {
            0nat
        } else {
            1nat
        }
    }
}

/// Whether every item is done. True of the empty list.
pub open spec fn every_done(items: Seq<ItemView>) -> bool {
    forall|i: int| 0 <= i < items.len() ==> (#[trigger] items[i]).done
}

/// The items that `filter` admits, newest first; `items` is oldest first.
pub open spec fn listing(items: Seq<ItemView>, filter: Filter) -> Seq<ItemView>
    decreases items.len(),
{
    if items.len() == 0 {
        Seq::empty()
    } else if filter.admits(items.last().done) {
        seq![items.last()] + listing(items.drop_last(), filter)
    } else {
        listing(items.drop_last(), filter)
    }
}

/// The position of the oldest item with the given id; the length where no
/// item has it.
pub open spec fn first_with_id(items: Seq<ItemView>, id: u32) -> int
    decreases items.len(),
{
    if items.len() == 0 {
        0
    } else {
        let before = first_with_id(items.drop_last(), id);
        if before < items.len() - 1 {
            before
        } else if items.last().id == id {
            items.len() - 1
        } else {
            items.len() as int
        }
    }
}

/// The item with its `done` flag replaced.
pub open spec fn with_done(item: ItemView, done: bool) -> ItemView {
    ItemView { id: item.id, done, label: item.label }
}

/// The list after the oldest item with the given id had its `done` flag
/// flipped; the list itself where no item has the id.
pub open spec fn toggled_items(items: Seq<ItemView>, id: u32) -> Seq<ItemView> {
    let k = first_with_id(items, id);
    if 0 <= k < items.len() {
        items.update(k, with_done(items[k], !items[k].done))
    } else {
        items
    }
}

/// The list with every `done` flag replaced by the same value.
pub open spec fn all_set(items: Seq<ItemView>, done: bool) -> Seq<ItemView> {
    items.map_values(|item: ItemView| with_done(item, done))
}

/// Whether the list is not empty and every item is done: the state of the
/// control that toggles them all.
pub open spec fn all_checked(items: Seq<ItemView>) -> bool {
    items.len() > 0 && every_done(items)
}

/// Whether ids grow with age of insertion and none exceeds `last_id`. Then no
/// two items share an id, and no id of a removed item comes back.
pub open spec fn ids_ascend(items: Seq<ItemView>, last_id: u32) -> bool {
    &&& forall|i: int| 0 <= i < items.len() ==> 1 <= (#[trigger] items[i]).id <= last_id
    &&& forall|i: int, j: int|
        0 <= i < j < items.len() ==> (#[trigger] items[i]).id < (#[trigger] items[j]).id
}

/// The state of the list as contracts see it.
pub struct StoreView {
    /// The items, oldest first.
    pub items: Seq<ItemView>,
    /// The id that the newest item ever added was given; zero before the first.
    pub last_id: u32,
    /// The filter that listings use.
    pub filter: Filter,
}

/// What [`TodoStore::add`] hands back for the refresh.
pub struct Added {
    pub item: Item,
    pub remaining: usize,
    pub all_done: bool,
}

/// No item has the id that was asked for.
#[derive(Clone, Copy, Debug, PartialEq, Eq, Structural)]
pub struct NotFoundError;

/// What [`TodoStore::toggle`] hands back: the item after the flip, and whether
/// the active filter still shows it.
pub struct Toggled {
    pub item: Item,
    pub visible: bool,
}

/// The list, the id counter and the active filter.
pub struct TodoStore {
    items: Vec<Item>,
    last_id: u32,
    filter: Filter,
}

impl View for TodoStore {
    type V = StoreView;

    closed spec fn view(&self) -> StoreView {
        StoreView { items: item_views(self.items@), last_id: self.last_id, filter: self.filter }
    }
}

/// How the parts of [`first_with_id`] read: the result is a position of the
/// list or its length, no item before it has the id, and the item at it has.
pub proof fn lemma_first_with_id(items: Seq<ItemView>, id: u32)
    ensures
        0 <= first_with_id(items, id) <= items.len(),
        first_with_id(items, id) < items.len() ==> items[first_with_id(items, id)].id == id,
        forall|j: int| 0 <= j < first_with_id(items, id) ==> (#[trigger] items[j]).id != id,
    decreases items.len(),
{
    if items.len() > 0 {
        lemma_first_with_id(items.drop_last(), id);
        assert forall|j: int| 0 <= j < first_with_id(items, id) implies (#[trigger] items[j]).id
            != id by {
            if j < items.len() - 1 {
                assert(items.drop_last()[j] == items[j]);
            }
        }
    }
}

/// A position whose item has the id, with none before it that has, is the one
/// that [`first_with_id`] gives.
pub proof fn lemma_first_with_id_at(items: Seq<ItemView>, id: u32, k: int)
    requires
        0 <= k < items.len(),
        items[k].id == id,
        forall|j: int| 0 <= j < k ==> (#[trigger] items[j]).id != id,
    ensures
        first_with_id(items, id) == k,
{
    lemma_first_with_id(items, id);
}

/// Where no item has the id, [`first_with_id`] gives the length.
pub proof fn lemma_first_with_id_absent(items: Seq<ItemView>, id: u32)
    requires
        forall|j: int| 0 <= j < items.len() ==> (#[trigger] items[j]).id != id,
    ensures
        first_with_id(items, id) == items.len(),
{
    lemma_first_with_id(items, id);
}

/// While ids ascend, no two items share an id, the id can tell at most one
/// item, and the id that the next item gets, short of the wrap, is one that
/// no item has: the id of a removed item does not come back.
pub proof fn lemma_ascending_ids_are_unique(items: Seq<ItemView>, last_id: u32)
    requires
        ids_ascend(items, last_id),
    ensures
        forall|i: int, j: int|
            0 <= i < items.len() && 0 <= j < items.len() && i != j ==> (#[trigger] items[i]).id != (
            #[trigger] items[j]).id,
        last_id < u32::MAX ==> first_with_id(items, next_id(last_id)) == items.len(),
{
    assert forall|i: int, j: int|
        0 <= i < items.len() && 0 <= j < items.len() && i != j implies (#[trigger] items[i]).id != (
    #[trigger] items[j]).id by {
        if i < j {
            assert(items[i].id < items[j].id);
        } else {
            assert(items[j].id < items[i].id);
        }
    }
    if last_id < u32::MAX {
        lemma_first_with_id_absent(items, next_id(last_id));
    }
}

/// A listing is the list restricted to what the filter admits, newest first:
/// the order of insertion is kept, reversed. Under `All` it is the whole list
/// reversed.
pub proof fn lemma_listing_filters_and_reverses(items: Seq<ItemView>, filter: Filter)
    ensures
        listing(items, filter) == items.filter(|item: ItemView| filter.admits(item.done)).reverse(),
        listing(items, Filter::All) == items.reverse(),
    decreases items.len(),
{
    let admitted = |item: ItemView| filter.admits(item.done);
    let any = |item: ItemView| Filter::All.admits(item.done);
    reveal(Seq::filter);
    if items.len() > 0 {
        let rest = items.drop_last();
        lemma_listing_filters_and_reverses(rest, filter);
        let kept = rest.filter(admitted);
        assert(kept.push(items.last()).reverse() =~= seq![items.last()] + kept.reverse());
        assert(items.reverse() =~= seq![items.last()] + rest.reverse());
    }
    assert(listing(items, filter) =~= items.filter(admitted).reverse());
    assert(listing(items, Filter::All) =~= items.reverse());
}

/// Flipping the same id twice gives the list back.
pub proof fn lemma_toggle_twice_restores(items: Seq<ItemView>, id: u32)
    ensures
        toggled_items(toggled_items(items, id), id) == items,
{
    lemma_first_with_id(items, id);
    let k = first_with_id(items, id);
    if k < items.len() {
        let once = toggled_items(items, id);
        assert forall|j: int| 0 <= j < k implies (#[trigger] once[j]).id != id by {
            assert(once[j] == items[j]);
        }
        lemma_first_with_id_at(once, id, k);
        assert(toggled_items(once, id) =~= items);
    }
}

/// On a list that is not empty, toggling all turns "every item is done" into
/// its opposite: a mixed list becomes all done, an all-done list all not done.
pub proof fn lemma_toggle_all_alternates(items: Seq<ItemView>)
    requires
        items.len() > 0,
    ensures
        every_done(all_set(items, !every_done(items))) == !every_done(items),
        ({
            let after = all_set(items, !every_done(items));
            forall|i: int| 0 <= i < after.len() ==> (#[trigger] after[i]).done == !every_done(items)
        }),
{
    let after = all_set(items, !every_done(items));
    if every_done(items) {
        assert(!after[0].done);
    }
}

/// Giving every item the value that all of them already have changes nothing.
pub proof fn lemma_set_all_same_is_clean(items: Seq<ItemView>, done: bool)
    requires
        forall|i: int| 0 <= i < items.len() ==> (#[trigger] items[i]).done == done,
    ensures
        all_set(items, done) == items,
{
    assert(all_set(items, done) =~= items);
}

impl TodoStore {
    /// An empty list under the filter `All`; the first item will get id 1.
    pub fn new() -> (store: TodoStore)
        ensures
            store@.items == Seq::<ItemView>::empty(),
            store@.last_id == 0,
            store@.filter == Filter::All,
            ids_ascend(store@.items, store@.last_id),
    {
        let store = TodoStore { items: Vec::new(), last_id: 0, filter: Filter::All };
        assert(item_views(store.items@) =~= Seq::<ItemView>::empty());
        store
    }

    /// An empty list under the filter `All` that goes on counting ids after
    /// `last_id`.
    pub fn starting_after(last_id: u32) -> (store: TodoStore)
        ensures
            store@.items == Seq::<ItemView>::empty(),
            store@.last_id == last_id,
            store@.filter == Filter::All,
    {
        let store = TodoStore { items: Vec::new(), last_id, filter: Filter::All };
        assert(item_views(store.items@) =~= Seq::<ItemView>::empty());
        store
    }

    /// The active filter.
    pub fn filter(&self) -> (filter: Filter)
        ensures
            filter == self@.filter,
    {
        self.filter
    }

    /// The number of items, whatever the filter.
    pub fn len(&self) -> (len: usize)
        ensures
            len == self@.items.len(),
    {
        self.items.len()
    }

    /// The number of items that are not done.
    pub fn remaining(&self) -> (count: usize)
        ensures
            count == count_active(self@.items),
    {
        let mut count: usize = 0;
        let mut i: usize = 0;
        while i < self.items.len()
            invariant
                i <= self.items.len(),
                count <= i,
                count == count_active(item_views(self.items@).take(i as int)),
            decreases self.items.len() - i,
        {
            proof {
                let views = item_views(self.items@);
                assert(views.take(i + 1).drop_last() =~= views.take(i as int));
            }
            if !self.items[i].done {
                count = count + 1;
            }
            i = i + 1;
        }
        proof {
            let views = item_views(self.items@);
            assert(views.take(i as int) =~= views);
        }
        count
    }

    /// Whether there is an item and every item is done.
    pub fn all_done(&self) -> (all: bool)
        ensures
            all == all_checked(self@.items),
    {
        let mut i: usize = 0;
        while i < self.items.len()
            invariant
                i <= self.items.len(),
                forall|j: int| 0 <= j < i ==> (#[trigger] item_views(self.items@)[j]).done,
            decreases self.items.len() - i,
        {
            if !self.items[i].done {
                assert(!item_views(self.items@)[i as int].done);
                return false;
            }
            i = i + 1;
        }
        self.items.len() > 0
    }

    /// The items that `filter` admits, newest first.
    pub fn list(&self, filter: Filter) -> (shown: Vec<Item>)
        ensures
            item_views(shown@) == listing(self@.items, filter),
    {
        let mut shown: Vec<Item> = Vec::new();
        let mut i: usize = self.items.len();
        proof {
            let views = item_views(self.items@);
            assert(views.take(i as int) =~= views);
            assert(item_views(shown@) =~= Seq::<ItemView>::empty());
        }
        while i > 0
            invariant
                i <= self.items.len(),
                item_views(shown@) + listing(item_views(self.items@).take(i as int), filter)
                    == listing(item_views(self.items@), filter),
            decreases i,
        {
            let ghost views = item_views(self.items@);
            let ghost before = item_views(shown@);
            i = i - 1;
            proof {
                assert(views.take(i + 1).drop_last() =~= views.take(i as int));
                assert(views.take(i + 1).last() == views[i as int]);
            }
            if filter.shows(self.items[i].done) {
                shown.push(self.items[i].clone());
                proof {
                    assert(item_views(shown@) =~= before.push(views[i as int]));
                    assert(before.push(views[i as int]) + listing(views.take(i as int), filter)
                        =~= before + (seq![views[i as int]] + listing(
                        views.take(i as int),
                        filter,
                    )));
                }
            }
        }
        proof {
            assert(item_views(self.items@).take(0) =~= Seq::<ItemView>::empty());
            assert(item_views(shown@) + Seq::<ItemView>::empty() =~= item_views(shown@));
        }
        shown
    }

    /// Appends a new item that is not done, under the id after the last one
    /// given out.
    pub fn add(&mut self, label: String) -> (added: Added)
        ensures
            final(self)@.last_id == next_id(old(self)@.last_id),
            final(self)@.filter == old(self)@.filter,
            final(self)@.items == old(self)@.items.push(
                ItemView { id: next_id(old(self)@.last_id), done: false, label: label@ },
            ),
            added.item@ == final(self)@.items.last(),
            added.remaining == count_active(final(self)@.items),
            added.all_done == all_checked(final(self)@.items),
            !added.all_done,
            ids_ascend(old(self)@.items, old(self)@.last_id) && old(self)@.last_id < u32::MAX
                ==> ids_ascend(final(self)@.items, final(self)@.last_id),
    {
        let id = self.last_id.wrapping_add(1);
        self.last_id = id;
        let item = Item { id, done: false, label };
        let copy = item.clone();
        self.items.push(item);
        proof {
            assert(item_views(self.items@) =~= item_views(old(self).items@).push(copy@));
        }
        let remaining = self.remaining();
        let all_done = self.all_done();
        proof {
            assert(!self@.items[self@.items.len() - 1].done);
        }
        Added { item: copy, remaining, all_done }
    }

    /// The position of the oldest item with the given id, if any has it.
    fn find(&self, id: u32) -> (found: Option<usize>)
        ensures
            match found {
                Some(k) => k < self@.items.len() && first_with_id(self@.items, id) == k,
                None => first_with_id(self@.items, id) == self@.items.len(),
            },
    {
        let mut i: usize = 0;
        while i < self.items.len()
            invariant
                i <= self.items.len(),
                forall|j: int| 0 <= j < i ==> (#[trigger] item_views(self.items@)[j]).id != id,
            decreases self.items.len() - i,
        {
            if self.items[i].id == id {
                proof {
                    lemma_first_with_id_at(item_views(self.items@), id, i as int);
                }
                return Some(i);
            }
            i = i + 1;
        }
        proof {
            lemma_first_with_id_absent(item_views(self.items@), id);
        }
        None
    }

    /// Flips `done` on the oldest item with the given id, and on no other.
    /// Where no item has the id the list stays as it was.
    pub fn toggle(&mut self, id: u32) -> (toggled: Result<Toggled, NotFoundError>)
        ensures
            final(self)@.last_id == old(self)@.last_id,
            final(self)@.filter == old(self)@.filter,
            match toggled {
                Ok(t) => {
                    let k = first_with_id(old(self)@.items, id);
                    &&& 0 <= k < old(self)@.items.len()
                    &&& final(self)@.items == toggled_items(old(self)@.items, id)
                    &&& t.item@ == final(self)@.items[k]
                    &&& t.visible == final(self)@.filter.admits(t.item@.done)
                },
                Err(_) => {
                    &&& first_with_id(old(self)@.items, id) == old(self)@.items.len()
                    &&& final(self)@ == old(self)@
                },
            },
            ids_ascend(old(self)@.items, old(self)@.last_id) ==> ids_ascend(
                final(self)@.items,
                final(self)@.last_id,
            ),
    {
        match self.find(id) {
            None => Err(NotFoundError),
            Some(k) => {
                let done = !self.items[k].done;
                self.items[k].done = done;
                let item = self.items[k].clone();
                proof {
                    let before = item_views(old(self).items@);
                    assert(item_views(self.items@) =~= toggled_items(before, id));
                }
                Ok(Toggled { item, visible: self.filter.shows(done) })
            },
        }
    }

    /// Removes the oldest item with the given id and says whether there was
    /// one. Where no item has the id nothing changes.
    pub fn delete(&mut self, id: u32) -> (removed: bool)
        ensures
            final(self)@.last_id == old(self)@.last_id,
            final(self)@.filter == old(self)@.filter,
            removed == (first_with_id(old(self)@.items, id) < old(self)@.items.len()),
            removed ==> final(self)@.items == old(self)@.items.remove(
                first_with_id(old(self)@.items, id),
            ),
            !removed ==> final(self)@ == old(self)@,
            ids_ascend(old(self)@.items, old(self)@.last_id) ==> ids_ascend(
                final(self)@.items,
                final(self)@.last_id,
            ),
    {
        match self.find(id) {
            None => false,
            Some(k) => {
                self.items.remove(k);
                proof {
                    assert(item_views(self.items@) =~= item_views(old(self).items@).remove(
                        k as int,
                    ));
                }
                true
            },
        }
    }

    /// Gives every item the same `done` value and says whether any changed.
    pub fn set_all(&mut self, done: bool) -> (dirty: bool)
        ensures
            final(self)@.last_id == old(self)@.last_id,
            final(self)@.filter == old(self)@.filter,
            final(self)@.items == all_set(old(self)@.items, done),
            dirty == exists|i: int|
                0 <= i < old(self)@.items.len() && (#[trigger] old(self)@.items[i]).done != done,
            ids_ascend(old(self)@.items, old(self)@.last_id) ==> ids_ascend(
                final(self)@.items,
                final(self)@.last_id,
            ),
    {
        let mut dirty = false;
        let mut i: usize = 0;
        while i < self.items.len()
            invariant
                i <= self.items.len(),
                self.items.len() == old(self).items.len(),
                self.last_id == old(self).last_id,
                self.filter == old(self).filter,
                forall|j: int|
                    0 <= j < i ==> (#[trigger] item_views(self.items@)[j]) == with_done(
                        item_views(old(self).items@)[j],
                        done,
                    ),
                forall|j: int|
                    i <= j < self.items.len() ==> (#[trigger] item_views(self.items@)[j])
                        == item_views(old(self).items@)[j],
                dirty == exists|j: int|
                    0 <= j < i && (#[trigger] item_views(old(self).items@)[j]).done != done,
            decreases self.items.len() - i,
        {
            let ghost before = item_views(self.items@);
            if self.items[i].done != done {
                dirty = true;
                assert(before[i as int] == item_views(old(self).items@)[i as int]);
            }
            self.items[i].done = done;
            proof {
                assert(item_views(self.items@) =~= before.update(
                    i as int,
                    with_done(before[i as int], done),
                ));
            }
            i = i + 1;
        }
        proof {
            let before = item_views(old(self).items@);
            assert(item_views(self.items@) =~= all_set(before, done));
            assert(old(self)@.items == before);
            if dirty {
                let j = choose|j: int| 0 <= j < i && (#[trigger] before[j]).done != done;
                assert(old(self)@.items[j].done != done);
            } else {
                assert forall|j: int| 0 <= j < before.len() implies (#[trigger] before[j]).done
                    == done by {}
            }
        }
        dirty
    }

    /// Makes every item done unless all of them already are, in which case
    /// none is done afterwards. Says whether any item changed.
    pub fn toggle_all(&mut self) -> (dirty: bool)
        ensures
            final(self)@.last_id == old(self)@.last_id,
            final(self)@.filter == old(self)@.filter,
            final(self)@.items == all_set(old(self)@.items, !every_done(old(self)@.items)),
            dirty == (old(self)@.items.len() > 0),
            ids_ascend(old(self)@.items, old(self)@.last_id) ==> ids_ascend(
                final(self)@.items,
                final(self)@.last_id,
            ),
    {
        let target = !(self.items.len() == 0 || self.all_done());
        let dirty = self.set_all(target);
        proof {
            let items = old(self)@.items;
            if items.len() > 0 && target {
                let i = choose|i: int| 0 <= i < items.len() && !(#[trigger] items[i]).done;
                assert(items[i].done != target);
            }
            if items.len() > 0 && !target {
                assert(items[0].done != target);
            }
        }
        dirty
    }

    /// Replaces the active filter by the one that `name` stands for.
    pub fn set_filter(&mut self, name: &str) -> (set: Result<(), InvalidFilterError>)
        ensures
            final(self)@.items == old(self)@.items,
            final(self)@.last_id == old(self)@.last_id,
            match filter_of_name(name@) {
                Some(filter) => set is Ok && final(self)@.filter == filter,
                None => set is Err && final(self)@.filter == old(self)@.filter,
            },
    {
        match Filter::parse(name) {
            Ok(filter) => {
                self.filter = filter;
                Ok(())
            },
            Err(e) => Err(e),
        }
    }
}

} // verus!
