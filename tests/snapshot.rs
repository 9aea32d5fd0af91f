use jira_wip::clock::Timestamp;
use jira_wip::status::Status;
use jira_wip::store::{SnapshotError, StoreSnapshot, TicketRecord, TicketStore};
use jira_wip::ticket::{TicketDescription, TicketDraft, TicketPatch, TicketTitle};

fn draft_of(title: &str, description: &str) -> TicketDraft {
    TicketDraft {
        title: TicketTitle::new(title.to_string()).unwrap(),
        description: TicketDescription::new(description.to_string()).unwrap(),
    }
}

fn by_id(mut tickets: Vec<TicketRecord>) -> Vec<TicketRecord> {
    tickets.sort_by_key(|r| r.id);
    tickets
}

fn instant(secs: i64, nanos: u32) -> Timestamp {
    Timestamp { secs, nanos }
}

fn record(id: u64, title: &str) -> TicketRecord {
    TicketRecord {
        id,
        title: title.to_string(),
        description: String::new(),
        status: Status::Blocked,
        created_at: instant(5, 0),
        updated_at: instant(5, 1),
    }
}

#[test]
fn load_what_you_save() {
    let mut store = TicketStore::new();
    store.save(draft_of("First", "one"));

    let snapshot = store.to_snapshot();
    let loaded_store = TicketStore::from_snapshot(&snapshot).unwrap();

    let reloaded = loaded_store.to_snapshot();
    assert_eq!(by_id(reloaded.tickets), by_id(snapshot.tickets));
    assert_eq!(reloaded.current_id, snapshot.current_id);
    assert_eq!(loaded_store.current_id(), store.current_id());
}

#[test]
fn snapshot_keeps_the_counter_after_deletes() {
    let mut store = TicketStore::new();
    store.save_at(draft_of("a", ""), instant(1, 0));
    store.save_at(draft_of("b", "bee"), instant(2, 0));
    store.save_at(draft_of("c", ""), instant(3, 0));
    store.update_at(&2, TicketPatch { title: None, description: None, status: Some(Status::Done) }, instant(4, 5));
    store.delete_at(&3, instant(5, 0));

    let mut snapshot = store.to_snapshot();
    snapshot.tickets = by_id(snapshot.tickets);
    assert_eq!(snapshot.current_id, 3);
    assert_eq!(snapshot.tickets.len(), 2);
    assert_eq!(snapshot.tickets[1].title, "b");
    assert_eq!(snapshot.tickets[1].status, Status::Done);
    assert_eq!(snapshot.tickets[1].updated_at, instant(4, 5));

    let mut loaded = TicketStore::from_snapshot(&snapshot).unwrap();
    let reloaded = loaded.to_snapshot();
    assert_eq!(reloaded.current_id, 3);
    assert_eq!(by_id(reloaded.tickets), snapshot.tickets);
    assert_eq!(loaded.save(draft_of("d", "")), 4);
}

#[test]
fn snapshot_of_an_empty_store_is_empty() {
    let snapshot = TicketStore::new().to_snapshot();
    assert!(snapshot.tickets.is_empty());
    assert_eq!(snapshot.current_id, 0);
    assert!(TicketStore::from_snapshot(&snapshot).unwrap().list().is_empty());
}

#[test]
fn records_in_any_order_are_accepted() {
    let snapshot = StoreSnapshot { tickets: vec![record(4, "four"), record(2, "two")], current_id: 4 };
    let store = TicketStore::from_snapshot(&snapshot).unwrap();
    let listed = store.to_snapshot();
    assert_eq!(by_id(listed.tickets), vec![record(2, "two"), record(4, "four")]);
}

#[test]
fn corrupt_snapshots_are_refused() {
    let bad = |tickets: Vec<TicketRecord>, current_id: u64| {
        TicketStore::from_snapshot(&StoreSnapshot { tickets, current_id }).err()
    };
    let corrupt = Some(SnapshotError::Corrupt);
    assert_eq!(bad(vec![record(1, "x"), record(1, "y")], 2), corrupt);
    assert_eq!(bad(vec![record(3, "x")], 2), corrupt);
    assert_eq!(bad(vec![record(0, "x")], 2), corrupt);
    assert_eq!(bad(vec![record(1, "")], 2), corrupt);
    assert_eq!(bad(vec![record(1, &"t".repeat(51))], 2), corrupt);
    let mut long = record(1, "x");
    long.description = "d".repeat(3001);
    assert_eq!(bad(vec![long], 2), corrupt);
    let mut backwards = record(1, "x");
    backwards.updated_at = instant(4, 999);
    assert_eq!(bad(vec![backwards], 2), corrupt);
    assert_eq!(bad(vec![record(1, "x"), record(2, "y")], 2), None);
}
