use wasm_service::filter::{Filter, InvalidFilterError};
use wasm_service::store::{Item, NotFoundError, TodoStore};

fn labels(items: &[Item]) -> Vec<String> {
    items.iter().map(|item| item.label.clone()).collect()
}

fn state(store: &TodoStore) -> Vec<(u32, bool, String)> {
    let mut items: Vec<(u32, bool, String)> = store
        .list(Filter::All)
        .iter()
        .map(|item| (item.id, item.done, item.label.clone()))
        .collect();
    items.reverse();
    items
}

#[test]
fn add_lists_newest_first() {
    let mut store = TodoStore::new();
    let first = store.add("Buy milk".to_string());
    let second = store.add("Walk dog".to_string());
    assert_eq!(first.item.id, 1);
    assert_eq!(second.item.id, 2);
    assert_eq!(labels(&store.list(Filter::All)), vec!["Walk dog", "Buy milk"]);
}

#[test]
fn add_reports_the_item_and_the_aggregates() {
    let mut store = TodoStore::new();
    let first = store.add("a".to_string());
    assert_eq!(first.item.label, "a");
    assert!(!first.item.done);
    assert_eq!(first.remaining, 1);
    assert!(!first.all_done);
    store.toggle(1).unwrap();
    let second = store.add("b".to_string());
    assert_eq!(second.item.id, 2);
    assert_eq!(second.remaining, 1);
    assert!(!second.all_done);
    assert_eq!(store.len(), 2);
}

#[test]
fn new_store_is_empty_under_all() {
    let store = TodoStore::new();
    assert_eq!(store.len(), 0);
    assert_eq!(store.remaining(), 0);
    assert!(!store.all_done());
    assert_eq!(store.filter(), Filter::All);
    assert!(store.list(Filter::All).is_empty());
}

#[test]
fn ids_are_not_reused_after_delete() {
    let mut store = TodoStore::new();
    store.add("a".to_string());
    store.add("b".to_string());
    assert!(store.delete(2));
    let third = store.add("c".to_string());
    assert_eq!(third.item.id, 3);
    assert_eq!(state(&store), vec![(1, false, "a".to_string()), (3, false, "c".to_string())]);
}

#[test]
fn id_wraps_to_zero_after_the_largest() {
    let mut store = TodoStore::starting_after(u32::MAX - 1);
    assert_eq!(store.add("x".to_string()).item.id, u32::MAX);
    assert_eq!(store.add("y".to_string()).item.id, 0);
    assert_eq!(store.add("z".to_string()).item.id, 1);
}

#[test]
fn toggle_twice_restores_done() {
    let mut store = TodoStore::new();
    store.add("a".to_string());
    store.add("b".to_string());
    let before = state(&store);
    let once = store.toggle(1).unwrap();
    assert!(once.item.done);
    assert_eq!(once.item.id, 1);
    assert!(once.visible);
    assert_eq!(state(&store), vec![(1, true, "a".to_string()), (2, false, "b".to_string())]);
    let twice = store.toggle(1).unwrap();
    assert!(!twice.item.done);
    assert_eq!(state(&store), before);
}

#[test]
fn toggle_missing_id_is_not_found_and_changes_nothing() {
    let mut store = TodoStore::new();
    store.add("a".to_string());
    let before = state(&store);
    assert_eq!(store.toggle(7).err(), Some(NotFoundError));
    assert_eq!(state(&store), before);
}

#[test]
fn toggle_says_whether_the_filter_still_shows_the_item() {
    let mut store = TodoStore::new();
    store.add("a".to_string());
    store.set_filter("Active").unwrap();
    assert!(!store.toggle(1).unwrap().visible);
    assert!(store.toggle(1).unwrap().visible);
    store.set_filter("Completed").unwrap();
    assert!(store.toggle(1).unwrap().visible);
    assert!(!store.toggle(1).unwrap().visible);
}

#[test]
fn toggle_flips_the_oldest_of_equal_ids() {
    let mut store = TodoStore::starting_after(u32::MAX);
    store.add("zero".to_string());
    let mut again = TodoStore::starting_after(u32::MAX);
    again.add("first".to_string());
    assert_eq!(store.toggle(0).unwrap().item.label, "zero");
    assert_eq!(again.toggle(0).unwrap().item.label, "first");
}

#[test]
fn delete_removes_the_item() {
    let mut store = TodoStore::new();
    store.add("a".to_string());
    store.add("b".to_string());
    store.add("c".to_string());
    assert!(store.delete(2));
    assert_eq!(labels(&store.list(Filter::All)), vec!["c", "a"]);
}

#[test]
fn delete_missing_id_is_a_no_op() {
    let mut store = TodoStore::new();
    store.add("a".to_string());
    let before = state(&store);
    assert!(!store.delete(9));
    assert_eq!(state(&store), before);
}

#[test]
fn filters_restrict_and_keep_order() {
    let mut store = TodoStore::new();
    store.add("y".to_string());
    store.add("x".to_string());
    store.toggle(2).unwrap();
    assert_eq!(labels(&store.list(Filter::Active)), vec!["y"]);
    assert_eq!(labels(&store.list(Filter::Completed)), vec!["x"]);
    assert_eq!(labels(&store.list(Filter::All)), vec!["x", "y"]);
}

#[test]
fn list_does_not_change_the_store() {
    let mut store = TodoStore::new();
    store.add("a".to_string());
    let before = state(&store);
    store.list(Filter::Completed);
    store.list(Filter::Active);
    assert_eq!(state(&store), before);
    assert_eq!(store.filter(), Filter::All);
}

#[test]
fn toggle_all_on_mixed_then_again() {
    let mut store = TodoStore::new();
    store.add("a".to_string());
    store.add("b".to_string());
    store.toggle(1).unwrap();
    assert!(store.toggle_all());
    assert!(store.list(Filter::All).iter().all(|item| item.done));
    assert!(store.all_done());
    assert_eq!(store.remaining(), 0);
    assert!(store.toggle_all());
    assert!(store.list(Filter::All).iter().all(|item| !item.done));
    assert_eq!(store.remaining(), 2);
}

#[test]
fn setting_all_to_what_they_are_is_clean() {
    let mut store = TodoStore::new();
    store.add("a".to_string());
    store.add("b".to_string());
    assert!(store.toggle_all());
    assert!(!store.set_all(true));
    assert!(store.list(Filter::All).iter().all(|item| item.done));
    assert!(store.set_all(false));
    assert!(!store.set_all(false));
}

#[test]
fn toggle_all_on_empty_list_is_clean() {
    let mut store = TodoStore::new();
    assert!(!store.toggle_all());
    assert_eq!(store.len(), 0);
}

#[test]
fn set_filter_takes_the_three_names_only() {
    let mut store = TodoStore::new();
    assert_eq!(store.set_filter("Active"), Ok(()));
    assert_eq!(store.filter(), Filter::Active);
    assert_eq!(store.set_filter("Completed"), Ok(()));
    assert_eq!(store.filter(), Filter::Completed);
    assert_eq!(store.set_filter("completed"), Err(InvalidFilterError));
    assert_eq!(store.set_filter(""), Err(InvalidFilterError));
    assert_eq!(store.set_filter("All "), Err(InvalidFilterError));
    assert_eq!(store.filter(), Filter::Completed);
    assert_eq!(store.set_filter("All"), Ok(()));
    assert_eq!(store.filter(), Filter::All);
}

#[test]
fn filter_names_read_back() {
    for filter in [Filter::All, Filter::Active, Filter::Completed] {
        assert_eq!(Filter::parse(filter.name()), Ok(filter));
    }
    assert_eq!(Filter::All.name(), "All");
    assert!(Filter::Active.shows(false));
    assert!(!Filter::Active.shows(true));
    assert!(Filter::Completed.shows(true));
    assert!(!Filter::Completed.shows(false));
    assert!(Filter::All.shows(true) && Filter::All.shows(false));
}

#[test]
fn all_done_needs_an_item() {
    let mut store = TodoStore::new();
    assert!(!store.all_done());
    store.add("a".to_string());
    assert!(!store.all_done());
    store.toggle(1).unwrap();
    assert!(store.all_done());
}
