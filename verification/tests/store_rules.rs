use orchestrator::capture::Outcome;
use orchestrator::status::{ItemStatus, RunStatus};
use orchestrator::store::{Item, Run, RunStore, StoreError, Write};

fn stored(key: &str) -> Outcome {
    Outcome::Stored { key: key.to_string() }
}

fn pending(id: u128, run_id: u128, url: &str) -> Item {
    Item { id, run_id, url: url.to_string(), storage_key: None, status: ItemStatus::Pending }
}

#[test]
fn new_store_is_empty() {
    let store = RunStore::new();
    assert_eq!(store.run_count(), 0);
    assert_eq!(store.item_count(), 0);
    assert_eq!(store.list_runs(), Vec::<Run>::new());
    assert_eq!(store.list_items(1), Vec::<Item>::new());
    assert_eq!(store.run(1), None);
    assert_eq!(store.item(1), None);
}

#[test]
fn inserted_run_is_running() {
    let mut store = RunStore::new();
    assert_eq!(store.insert_run(10), Ok(()));
    assert_eq!(store.run(10), Some(Run { id: 10, status: RunStatus::Running, created_at: 0 }));
    assert_eq!(store.run_count(), 1);
}

#[test]
fn duplicate_run_is_refused() {
    let mut store = RunStore::new();
    assert_eq!(store.insert_run(10), Ok(()));
    assert_eq!(store.insert_run(10), Err(StoreError::DuplicateRun));
    assert_eq!(store.run_count(), 1);
}

#[test]
fn inserted_item_is_pending_without_key() {
    let mut store = RunStore::new();
    store.insert_run(10).unwrap();
    assert_eq!(store.insert_item(1, 10, "https://a.test/x".to_string()), Ok(()));
    assert_eq!(store.item(1), Some(pending(1, 10, "https://a.test/x")));
}

#[test]
fn duplicate_item_is_refused() {
    let mut store = RunStore::new();
    store.insert_run(10).unwrap();
    store.insert_run(11).unwrap();
    store.insert_item(1, 10, "u".to_string()).unwrap();
    assert_eq!(store.insert_item(1, 11, "v".to_string()), Err(StoreError::DuplicateItem));
    assert_eq!(store.item(1), Some(pending(1, 10, "u")));
    assert_eq!(store.item_count(), 1);
}

#[test]
fn item_of_unknown_run_is_refused() {
    let mut store = RunStore::new();
    store.insert_run(10).unwrap();
    assert_eq!(store.insert_item(1, 99, "u".to_string()), Err(StoreError::UnknownRun));
    assert_eq!(store.item_count(), 0);
}

#[test]
fn item_of_completed_run_is_refused() {
    let mut store = RunStore::new();
    store.insert_run(10).unwrap();
    store.complete_run(10).unwrap();
    assert_eq!(store.insert_item(1, 10, "u".to_string()), Err(StoreError::RunCompleted));
    assert_eq!(store.item_count(), 0);
}

#[test]
fn settling_sets_status_and_key_together() {
    let mut store = RunStore::new();
    store.insert_run(10).unwrap();
    store.insert_item(1, 10, "u".to_string()).unwrap();
    store.insert_item(2, 10, "v".to_string()).unwrap();
    assert_eq!(store.settle_item(1, stored("k1")), Ok(()));
    assert_eq!(store.settle_item(2, Outcome::Failed), Ok(()));
    assert_eq!(
        store.item(1),
        Some(Item {
            id: 1,
            run_id: 10,
            url: "u".to_string(),
            storage_key: Some("k1".to_string()),
            status: ItemStatus::Completed,
        })
    );
    assert_eq!(
        store.item(2),
        Some(Item {
            id: 2,
            run_id: 10,
            url: "v".to_string(),
            storage_key: None,
            status: ItemStatus::Failed,
        })
    );
}

#[test]
fn settling_an_unknown_item_is_refused() {
    let mut store = RunStore::new();
    store.insert_run(10).unwrap();
    assert_eq!(store.settle_item(1, stored("k1")), Err(StoreError::UnknownItem));
}

#[test]
fn an_item_is_settled_only_once() {
    let mut store = RunStore::new();
    store.insert_run(10).unwrap();
    store.insert_item(1, 10, "u".to_string()).unwrap();
    store.settle_item(1, Outcome::Failed).unwrap();
    assert_eq!(store.settle_item(1, stored("k1")), Err(StoreError::ItemSettled));
    assert_eq!(store.item(1).unwrap().status, ItemStatus::Failed);
    assert_eq!(store.item(1).unwrap().storage_key, None);
    store.insert_item(2, 10, "v".to_string()).unwrap();
    store.settle_item(2, stored("k2")).unwrap();
    assert_eq!(store.settle_item(2, Outcome::Failed), Err(StoreError::ItemSettled));
    assert_eq!(store.item(2).unwrap().status, ItemStatus::Completed);
    assert_eq!(store.item(2).unwrap().storage_key, Some("k2".to_string()));
}

#[test]
fn completing_an_unknown_run_is_refused() {
    let mut store = RunStore::new();
    assert_eq!(store.complete_run(10), Err(StoreError::UnknownRun));
}

#[test]
fn a_run_is_completed_only_once() {
    let mut store = RunStore::new();
    store.insert_run(10).unwrap();
    assert_eq!(store.complete_run(10), Ok(()));
    assert_eq!(store.complete_run(10), Err(StoreError::RunCompleted));
    assert_eq!(store.run(10).unwrap().status, RunStatus::Completed);
}

#[test]
fn a_run_with_a_pending_item_is_not_completed() {
    let mut store = RunStore::new();
    store.insert_run(10).unwrap();
    store.insert_run(11).unwrap();
    store.insert_item(1, 10, "u".to_string()).unwrap();
    store.insert_item(2, 10, "v".to_string()).unwrap();
    store.settle_item(1, stored("k1")).unwrap();
    assert_eq!(store.complete_run(10), Err(StoreError::ItemsPending));
    assert_eq!(store.run(10).unwrap().status, RunStatus::Running);
    assert_eq!(store.complete_run(11), Ok(()));
    store.settle_item(2, Outcome::Failed).unwrap();
    assert_eq!(store.complete_run(10), Ok(()));
    assert_eq!(store.run(10).unwrap().status, RunStatus::Completed);
}

#[test]
fn apply_carries_out_each_write() {
    let mut store = RunStore::new();
    assert_eq!(store.apply(Write::InsertRun { id: 10 }), Ok(()));
    assert_eq!(
        store.apply(Write::InsertItem { id: 1, run_id: 10, url: "u".to_string() }),
        Ok(())
    );
    assert_eq!(store.apply(Write::CompleteRun { id: 10 }), Err(StoreError::ItemsPending));
    assert_eq!(store.apply(Write::SettleItem { id: 1, outcome: stored("k") }), Ok(()));
    assert_eq!(store.apply(Write::CompleteRun { id: 10 }), Ok(()));
    assert_eq!(store.apply(Write::InsertRun { id: 10 }), Err(StoreError::DuplicateRun));
    assert_eq!(store.run(10).unwrap().status, RunStatus::Completed);
    assert_eq!(store.item(1).unwrap().storage_key, Some("k".to_string()));
}

#[test]
fn runs_are_listed_newest_first() {
    let mut store = RunStore::new();
    store.insert_run(30).unwrap();
    store.insert_run(10).unwrap();
    store.insert_run(20).unwrap();
    store.complete_run(10).unwrap();
    assert_eq!(
        store.list_runs(),
        vec![
            Run { id: 20, status: RunStatus::Running, created_at: 2 },
            Run { id: 10, status: RunStatus::Completed, created_at: 1 },
            Run { id: 30, status: RunStatus::Running, created_at: 0 },
        ]
    );
    assert_eq!(store.run_count(), 3);
}

#[test]
fn items_are_listed_by_run_in_order_of_registration() {
    let mut store = RunStore::new();
    store.insert_run(10).unwrap();
    store.insert_run(11).unwrap();
    store.insert_item(3, 10, "a".to_string()).unwrap();
    store.insert_item(1, 11, "b".to_string()).unwrap();
    store.insert_item(2, 10, "c".to_string()).unwrap();
    store.settle_item(2, stored("k2")).unwrap();
    let of_10 = store.list_items(10);
    assert_eq!(of_10.len(), 2);
    assert_eq!(of_10[0], pending(3, 10, "a"));
    assert_eq!(of_10[1].id, 2);
    assert_eq!(of_10[1].storage_key, Some("k2".to_string()));
    assert_eq!(of_10[1].status, ItemStatus::Completed);
    assert_eq!(store.list_items(11), vec![pending(1, 11, "b")]);
    assert_eq!(store.list_items(12), Vec::<Item>::new());
    assert_eq!(store.item_count(), 3);
}

#[test]
fn item_duplicate_is_equal() {
    let item = Item {
        id: 5,
        run_id: 6,
        url: "u".to_string(),
        storage_key: Some("k".to_string()),
        status: ItemStatus::Completed,
    };
    assert_eq!(item.duplicate(), item);
    assert_eq!(pending(1, 2, "x").duplicate(), pending(1, 2, "x"));
}
