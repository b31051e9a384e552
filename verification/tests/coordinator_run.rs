use orchestrator::capture::{CaptureReply, CaptureRequest, Outcome};
use orchestrator::coordinator::{Action, Coordinator, Event, Phase, Receipt};
use orchestrator::status::{ItemStatus, RunStatus};
use orchestrator::store::{Item, Run, RunStore, Write};

const WORKER: &str = "http://worker:3000";

fn coordinator(run_id: u128, urls: &[&str]) -> Coordinator {
    Coordinator::new(run_id, WORKER.to_string(), urls.iter().map(|u| u.to_string()).collect())
}

fn success(key: &str) -> CaptureReply {
    let body = format!("{{\"s3Key\":\"{}\"}}", key);
    CaptureReply::Answered { status: 200, body: Some(body.into_bytes()) }
}

fn http(status: u16) -> CaptureReply {
    CaptureReply::Answered { status, body: Some(b"{\"s3Key\":\"ignored\"}".to_vec()) }
}

/// Plays the faithful caller: every write goes to `store`, every capture
/// request gets the next of `replies`. Returns the actions asked for.
fn run_to_end(
    store: &mut RunStore,
    run_id: u128,
    urls: &[&str],
    ids: &[u128],
    replies: Vec<CaptureReply>,
) -> Vec<Action> {
    let mut coordinator = coordinator(run_id, urls);
    let mut ids = ids.iter();
    let mut replies = replies.into_iter();
    let mut asked = Vec::new();
    let mut event = Event::Begin;
    loop {
        let fresh = if coordinator.registers(&event) { *ids.next().unwrap() } else { 0 };
        let action = coordinator.advance(event, fresh);
        asked.push(action.clone());
        event = match action {
            Action::Store(write) => Event::Written { accepted: store.apply(write).is_ok() },
            Action::Capture(_) => Event::Captured(replies.next().unwrap()),
            _ => break,
        };
    }
    assert!(replies.next().is_none());
    assert!(ids.next().is_none());
    asked
}

fn item(id: u128, run_id: u128, url: &str, key: Option<&str>) -> Item {
    Item {
        id,
        run_id,
        url: url.to_string(),
        storage_key: key.map(|k| k.to_string()),
        status: if key.is_some() { ItemStatus::Completed } else { ItemStatus::Failed },
    }
}

#[test]
fn one_url_captured_ends_completed_with_its_key() {
    let mut store = RunStore::new();
    run_to_end(&mut store, 100, &["https://a.test/x"], &[1], vec![success("k1")]);
    assert_eq!(store.run(100).unwrap().status, RunStatus::Completed);
    assert_eq!(store.list_items(100), vec![item(1, 100, "https://a.test/x", Some("k1"))]);
    assert_eq!(store.item_count(), 1);
}

#[test]
fn timeout_of_the_first_does_not_stop_the_second() {
    let mut store = RunStore::new();
    run_to_end(
        &mut store,
        100,
        &["https://a.test/slow", "https://a.test/ok"],
        &[1, 2],
        vec![CaptureReply::Unreachable, success("k2")],
    );
    assert_eq!(store.run(100).unwrap().status, RunStatus::Completed);
    assert_eq!(
        store.list_items(100),
        vec![
            item(1, 100, "https://a.test/slow", None),
            item(2, 100, "https://a.test/ok", Some("k2")),
        ]
    );
}

#[test]
fn http_500_fails_the_item_and_completes_the_run() {
    let mut store = RunStore::new();
    run_to_end(&mut store, 100, &["https://a.test/x"], &[1], vec![http(500)]);
    assert_eq!(store.run(100).unwrap().status, RunStatus::Completed);
    assert_eq!(store.list_items(100), vec![item(1, 100, "https://a.test/x", None)]);
}

#[test]
fn empty_submission_is_completed_with_no_item() {
    let mut store = RunStore::new();
    let asked = run_to_end(&mut store, 100, &[], &[], vec![]);
    assert_eq!(
        asked,
        vec![
            Action::Store(Write::InsertRun { id: 100 }),
            Action::Store(Write::CompleteRun { id: 100 }),
            Action::Finish,
        ]
    );
    assert_eq!(
        store.list_runs(),
        vec![Run { id: 100, status: RunStatus::Completed, created_at: 0 }]
    );
    assert_eq!(store.item_count(), 0);
}

#[test]
fn every_item_failing_still_completes_the_run() {
    let mut store = RunStore::new();
    run_to_end(
        &mut store,
        100,
        &["a", "b", "c"],
        &[1, 2, 3],
        vec![http(500), CaptureReply::Unreachable, http(404)],
    );
    assert_eq!(store.run(100).unwrap().status, RunStatus::Completed);
    assert_eq!(
        store.list_items(100),
        vec![item(1, 100, "a", None), item(2, 100, "b", None), item(3, 100, "c", None)]
    );
}

#[test]
fn success_without_key_is_completed_with_the_empty_key() {
    let mut store = RunStore::new();
    let reply = CaptureReply::Answered { status: 200, body: Some(b"{}".to_vec()) };
    run_to_end(&mut store, 100, &["a"], &[1], vec![reply]);
    assert_eq!(store.list_items(100), vec![item(1, 100, "a", Some(""))]);
}

#[test]
fn actions_come_in_order() {
    let mut store = RunStore::new();
    let asked = run_to_end(
        &mut store,
        100,
        &["https://a.test/1", "https://a.test/2"],
        &[7, 8],
        vec![http(502), success("k8")],
    );
    let request = |url: &str| CaptureRequest {
        endpoint: "http://worker:3000/screenshot".to_string(),
        url: url.to_string(),
    };
    assert_eq!(
        asked,
        vec![
            Action::Store(Write::InsertRun { id: 100 }),
            Action::Store(Write::InsertItem {
                id: 7,
                run_id: 100,
                url: "https://a.test/1".to_string()
            }),
            Action::Capture(request("https://a.test/1")),
            Action::Store(Write::SettleItem { id: 7, outcome: Outcome::Failed }),
            Action::Store(Write::InsertItem {
                id: 8,
                run_id: 100,
                url: "https://a.test/2".to_string()
            }),
            Action::Capture(request("https://a.test/2")),
            Action::Store(Write::SettleItem {
                id: 8,
                outcome: Outcome::Stored { key: "k8".to_string() }
            }),
            Action::Store(Write::CompleteRun { id: 100 }),
            Action::Finish,
        ]
    );
}

#[test]
fn phases_follow_the_run() {
    let mut c = coordinator(100, &["a"]);
    assert_eq!(c.phase(), Phase::Accepted);
    assert_eq!(c.run_id(), 100);
    c.advance(Event::Begin, 0);
    assert_eq!(c.phase(), Phase::Creating);
    assert!(c.registers(&Event::Written { accepted: true }));
    assert!(!c.registers(&Event::Written { accepted: false }));
    c.advance(Event::Written { accepted: true }, 1);
    assert_eq!(c.phase(), Phase::Registering);
    assert!(!c.registers(&Event::Written { accepted: true }));
    c.advance(Event::Written { accepted: true }, 0);
    assert_eq!(c.phase(), Phase::Capturing);
    c.advance(Event::Captured(success("k")), 0);
    assert_eq!(c.phase(), Phase::Recording);
    assert!(!c.registers(&Event::Written { accepted: true }));
    c.advance(Event::Written { accepted: true }, 0);
    assert_eq!(c.phase(), Phase::Completing);
    assert_eq!(c.advance(Event::Written { accepted: true }, 0), Action::Finish);
    assert_eq!(c.phase(), Phase::Done);
    assert_eq!(c.run_id(), 100);
}

#[test]
fn receipt_follows_the_run() {
    let mut c = coordinator(100, &["a"]);
    assert_eq!(c.receipt(), None);
    c.advance(Event::Begin, 0);
    assert_eq!(c.receipt(), None);
    c.advance(Event::Written { accepted: true }, 1);
    let running = Receipt { id: 100, status: RunStatus::Running };
    assert_eq!(c.receipt(), Some(running));
    assert_eq!(c.receipt().unwrap().status.as_str(), "running");
    c.advance(Event::Written { accepted: true }, 0);
    assert_eq!(c.receipt(), Some(running));
    c.advance(Event::Captured(success("k")), 0);
    assert_eq!(c.receipt(), Some(running));
    c.advance(Event::Written { accepted: true }, 0);
    assert_eq!(c.phase(), Phase::Completing);
    assert_eq!(c.receipt(), Some(running));
    c.advance(Event::Written { accepted: true }, 0);
    assert_eq!(c.receipt(), Some(Receipt { id: 100, status: RunStatus::Completed }));
}

#[test]
fn a_rejected_run_has_no_receipt() {
    let mut c = coordinator(100, &["a"]);
    c.advance(Event::Begin, 0);
    assert_eq!(c.advance(Event::Written { accepted: false }, 1), Action::Reject);
    assert_eq!(c.receipt(), None);
    assert_eq!(c.lost(), 0);
}

#[test]
fn a_stalled_run_is_still_shown_as_running() {
    let mut c = coordinator(100, &[]);
    c.advance(Event::Begin, 0);
    c.advance(Event::Written { accepted: true }, 0);
    assert_eq!(c.advance(Event::Written { accepted: false }, 0), Action::Stall { lost: 1 });
    assert_eq!(c.receipt(), Some(Receipt { id: 100, status: RunStatus::Running }));
}

#[test]
fn a_run_that_cannot_be_created_is_rejected() {
    let mut store = RunStore::new();
    store.insert_run(100).unwrap();
    let asked = run_to_end(&mut store, 100, &["a"], &[], vec![]);
    assert_eq!(asked, vec![Action::Store(Write::InsertRun { id: 100 }), Action::Reject]);
    assert_eq!(store.run(100).unwrap().status, RunStatus::Running);
    assert_eq!(store.item_count(), 0);
}

#[test]
fn a_rejected_run_stays_rejected() {
    let mut c = coordinator(100, &["a"]);
    c.advance(Event::Begin, 0);
    assert_eq!(c.advance(Event::Written { accepted: false }, 1), Action::Reject);
    assert_eq!(c.phase(), Phase::Rejected);
    assert_eq!(c.advance(Event::Written { accepted: true }, 1), Action::Idle);
    assert_eq!(c.advance(Event::Begin, 1), Action::Idle);
    assert_eq!(c.advance(Event::Captured(success("k")), 1), Action::Idle);
    assert_eq!(c.phase(), Phase::Rejected);
}

#[test]
fn events_out_of_turn_are_ignored() {
    let mut c = coordinator(100, &["a"]);
    assert_eq!(c.advance(Event::Written { accepted: true }, 1), Action::Idle);
    assert_eq!(c.advance(Event::Captured(success("k")), 1), Action::Idle);
    assert_eq!(c.phase(), Phase::Accepted);
    c.advance(Event::Begin, 0);
    assert_eq!(c.advance(Event::Begin, 0), Action::Idle);
    assert_eq!(c.advance(Event::Captured(success("k")), 1), Action::Idle);
    assert_eq!(c.phase(), Phase::Creating);
    c.advance(Event::Written { accepted: true }, 1);
    c.advance(Event::Written { accepted: true }, 0);
    assert_eq!(c.phase(), Phase::Capturing);
    assert_eq!(c.advance(Event::Written { accepted: true }, 2), Action::Idle);
    assert_eq!(c.advance(Event::Begin, 2), Action::Idle);
    assert_eq!(c.phase(), Phase::Capturing);
    assert_eq!(
        c.advance(Event::Captured(success("k")), 2),
        Action::Store(Write::SettleItem { id: 1, outcome: Outcome::Stored { key: "k".to_string() } })
    );
    assert_eq!(c.advance(Event::Captured(success("again")), 2), Action::Idle);
    c.advance(Event::Written { accepted: true }, 0);
    c.advance(Event::Written { accepted: true }, 0);
    assert_eq!(c.phase(), Phase::Done);
    assert_eq!(c.advance(Event::Begin, 0), Action::Idle);
    assert_eq!(c.advance(Event::Written { accepted: true }, 0), Action::Idle);
    assert_eq!(c.phase(), Phase::Done);
}

#[test]
fn a_lost_settlement_stalls_the_run() {
    let mut store = RunStore::new();
    let mut c = coordinator(100, &["https://a.test/x"]);
    let mut asked = Vec::new();
    let mut event = Event::Begin;
    loop {
        let action = c.advance(event, 1);
        asked.push(action.clone());
        event = match action {
            // The store is out of reach for the item's outcome.
            Action::Store(Write::SettleItem { .. }) => Event::Written { accepted: false },
            Action::Store(write) => Event::Written { accepted: store.apply(write).is_ok() },
            Action::Capture(_) => Event::Captured(success("k")),
            _ => break,
        };
    }
    assert_eq!(asked.last(), Some(&Action::Stall { lost: 1 }));
    assert!(!asked.contains(&Action::Store(Write::CompleteRun { id: 100 })));
    assert!(!asked.contains(&Action::Finish));
    assert_eq!(c.phase(), Phase::Stalled);
    assert_eq!(c.lost(), 1);
    assert_eq!(store.run(100).unwrap().status, RunStatus::Running);
    assert_eq!(store.item(1).unwrap().status, ItemStatus::Pending);
    assert_eq!(store.item(1).unwrap().storage_key, None);
}

#[test]
fn a_lost_registration_is_not_captured() {
    let mut c = coordinator(100, &["a", "b"]);
    c.advance(Event::Begin, 0);
    assert_eq!(
        c.advance(Event::Written { accepted: true }, 1),
        Action::Store(Write::InsertItem { id: 1, run_id: 100, url: "a".to_string() })
    );
    assert!(c.registers(&Event::Written { accepted: false }));
    assert!(!c.registers(&Event::Written { accepted: true }));
    assert_eq!(
        c.advance(Event::Written { accepted: false }, 2),
        Action::Store(Write::InsertItem { id: 2, run_id: 100, url: "b".to_string() })
    );
    assert_eq!(c.lost(), 1);
    assert!(!c.registers(&Event::Written { accepted: false }));
    assert_eq!(c.advance(Event::Written { accepted: false }, 3), Action::Stall { lost: 2 });
    assert_eq!(c.phase(), Phase::Stalled);
    assert_eq!(c.lost(), 2);
}

#[test]
fn a_lost_completion_stalls_the_run() {
    let mut c = coordinator(100, &["a"]);
    c.advance(Event::Begin, 0);
    c.advance(Event::Written { accepted: true }, 1);
    c.advance(Event::Written { accepted: true }, 0);
    c.advance(Event::Captured(http(500)), 0);
    assert_eq!(
        c.advance(Event::Written { accepted: true }, 0),
        Action::Store(Write::CompleteRun { id: 100 })
    );
    assert_eq!(c.lost(), 0);
    assert_eq!(c.advance(Event::Written { accepted: false }, 0), Action::Stall { lost: 1 });
    assert_eq!(c.phase(), Phase::Stalled);
    assert_eq!(c.lost(), 1);
}

#[test]
fn a_stalled_run_stays_stalled() {
    let mut c = coordinator(100, &[]);
    c.advance(Event::Begin, 0);
    c.advance(Event::Written { accepted: true }, 0);
    c.advance(Event::Written { accepted: false }, 0);
    assert_eq!(c.advance(Event::Written { accepted: true }, 0), Action::Idle);
    assert_eq!(c.advance(Event::Written { accepted: false }, 0), Action::Idle);
    assert_eq!(c.advance(Event::Begin, 0), Action::Idle);
    assert_eq!(c.advance(Event::Captured(success("k")), 0), Action::Idle);
    assert_eq!(c.phase(), Phase::Stalled);
    assert_eq!(c.lost(), 1);
}

#[test]
fn a_loss_does_not_stop_the_other_items() {
    let mut store = RunStore::new();
    let mut c = coordinator(100, &["a", "b", "c"]);
    let mut fresh = 0;
    let mut asked = Vec::new();
    let mut event = Event::Begin;
    loop {
        fresh += 1;
        let action = c.advance(event, fresh);
        asked.push(action.clone());
        event = match action {
            // The outcome of `a` does not reach the store.
            Action::Store(Write::SettleItem { id: 2, .. }) => Event::Written { accepted: false },
            Action::Store(write) => Event::Written { accepted: store.apply(write).is_ok() },
            Action::Capture(request) => Event::Captured(success(&request.url)),
            _ => break,
        };
    }
    assert_eq!(asked.last(), Some(&Action::Stall { lost: 1 }));
    assert!(!asked.contains(&Action::Store(Write::CompleteRun { id: 100 })));
    assert_eq!(store.run(100).unwrap().status, RunStatus::Running);
    let items = store.list_items(100);
    assert_eq!(items.len(), 3);
    assert_eq!(items[0].status, ItemStatus::Pending);
    assert_eq!(items[1].storage_key, Some("b".to_string()));
    assert_eq!(items[2].storage_key, Some("c".to_string()));
}

#[test]
fn a_run_without_loss_is_finished_not_stalled() {
    let mut store = RunStore::new();
    let asked = run_to_end(&mut store, 100, &["a", "b"], &[1, 2], vec![http(500), http(500)]);
    assert_eq!(asked.last(), Some(&Action::Finish));
    assert!(!asked.iter().any(|a| matches!(a, Action::Stall { .. })));
    let completions =
        asked.iter().filter(|a| matches!(a, Action::Store(Write::CompleteRun { .. }))).count();
    assert_eq!(completions, 1);
}

#[test]
fn drawn_identifiers_run_to_the_end() {
    let mut store = RunStore::new();
    let urls = vec!["a".to_string(), "b".to_string(), "c".to_string()];
    let mut c = Coordinator::submit(WORKER.to_string(), urls);
    let run_id = c.run_id();
    assert_eq!(c.receipt(), None);
    let mut replies = vec![success("ka"), http(500), success("kc")].into_iter();
    let mut event = Event::Begin;
    loop {
        event = match c.step(event) {
            Action::Store(write) => Event::Written { accepted: store.apply(write).is_ok() },
            Action::Capture(_) => Event::Captured(replies.next().unwrap()),
            Action::Finish => break,
            other => panic!("unexpected {:?}", other),
        };
    }
    assert_eq!(c.receipt(), Some(Receipt { id: run_id, status: RunStatus::Completed }));
    assert_eq!(c.lost(), 0);
    assert_eq!(store.run(run_id).unwrap().status, RunStatus::Completed);
    let items = store.list_items(run_id);
    assert_eq!(items.len(), 3);
    assert_eq!(items[0].url, "a");
    assert_eq!(items[0].storage_key, Some("ka".to_string()));
    assert_eq!(items[1].status, ItemStatus::Failed);
    assert_eq!(items[1].storage_key, None);
    assert_eq!(items[2].storage_key, Some("kc".to_string()));
    assert_ne!(items[0].id, items[1].id);
    assert_ne!(items[1].id, items[2].id);
    assert_ne!(items[0].id, items[2].id);
}

#[test]
fn drawn_identifiers_are_version_4_uuids() {
    let c = Coordinator::submit(WORKER.to_string(), Vec::new());
    let d = Coordinator::submit(WORKER.to_string(), Vec::new());
    assert_ne!(c.run_id(), d.run_id());
    let id = uuid::Uuid::from_u128(c.run_id());
    assert_eq!(id.get_version_num(), 4);
}
