use jira_wip::clock::Timestamp;
use jira_wip::command::{handle_command, Command, CommandOutcome};
use jira_wip::status::Status;
use jira_wip::store::{TicketId, TicketStore};
use jira_wip::ticket::{TicketDescription, TicketDraft, TicketPatch, TicketTitle};
use std::time::{Duration, Instant};

fn sample_draft(n: usize) -> TicketDraft {
    let title = TicketTitle::new(format!("Ticket number {}", n)).unwrap();
    let description = TicketDescription::new("d".repeat(n % 3000)).unwrap();
    TicketDraft { title, description }
}

fn sample_patch(status: Status) -> TicketPatch {
    let patch = sample_draft(77);

    TicketPatch {
        title: Some(patch.title),
        description: Some(patch.description),
        status: Some(status),
    }
}

fn wait_a_little() {
    let start = Instant::now();
    while start.elapsed() < Duration::from_millis(100) {}
}

fn at(secs: i64) -> Timestamp {
    Timestamp { secs, nanos: 0 }
}

fn check_home(n: usize) {
    let draft = sample_draft(n);
    let mut store = TicketStore::new();

    let ticket_id = store.save(draft.clone());
    let retrieved_ticket = store.get(&ticket_id).unwrap();

    assert_eq!(&ticket_id, retrieved_ticket.id());
    assert_eq!(&draft.title, retrieved_ticket.title());
    assert_eq!(&draft.description, retrieved_ticket.description());
    assert_eq!(&Status::ToDo, retrieved_ticket.status());
    assert_eq!(retrieved_ticket.created_at(), retrieved_ticket.updated_at());
}

fn check_missing(id: TicketId) {
    let ticket_store = TicketStore::new();

    assert_eq!(ticket_store.get(&id), None);
}

fn check_monotonic() {
    let n_tickets = 100;
    let mut store = TicketStore::new();

    for expected_id in 1..n_tickets {
        let draft = sample_draft(expected_id as usize);
        let ticket_id = store.save(draft);
        assert_eq!(expected_id, ticket_id);
    }
}

#[test]
fn id_generation_a_ticket_with_a_home() {
    let draft = sample_draft(3);
    let mut store = TicketStore::new();

    let ticket_id = store.save(draft.clone());

    assert_eq!(store.get(&ticket_id).unwrap().title(), &draft.title);
    assert_eq!(ticket_id, 1);
}

#[test]
fn id_generation_a_missing_ticket() {
    check_missing(17);
}

#[test]
fn id_generation_id_generation_is_monotonic() {
    check_monotonic();
}

#[test]
fn type_as_constraints_a_ticket_with_a_home() {
    check_home(5);
}

#[test]
fn type_as_constraints_a_missing_ticket() {
    check_missing(u64::MAX);
}

#[test]
fn type_as_constraints_id_generation_is_monotonic() {
    check_monotonic();
}

#[test]
fn result_a_ticket_with_a_home() {
    check_home(2999);
}

#[test]
fn result_a_missing_ticket() {
    check_missing(1);
}

#[test]
fn result_id_generation_is_monotonic() {
    check_monotonic();
}

#[test]
fn a_ticket_with_a_home() {
    check_home(0);
}

#[test]
fn a_missing_ticket() {
    check_missing(987_654_321);
}

#[test]
fn id_generation_is_monotonic() {
    check_monotonic();
}

#[test]
fn updating_nothing_leaves_the_updatable_fields_unchanged() {
    let mut store = TicketStore::new();
    let draft = sample_draft(12);
    let ticket_id = store.save(draft.clone());

    let patch = TicketPatch {
        title: None,
        description: None,
        status: None,
    };
    let updated_ticket = store.update(&ticket_id, patch).unwrap();

    assert_eq!(&draft.title, updated_ticket.title());
    assert_eq!(&draft.description, updated_ticket.description());
    assert_eq!(&Status::ToDo, updated_ticket.status());
}

#[test]
fn trying_to_update_a_missing_ticket_returns_none() {
    let mut store = TicketStore::new();
    let ticket_id = 4242;
    let patch = sample_patch(Status::Done);

    assert_eq!(store.update(&ticket_id, patch), None);
}

#[test]
fn update_works() {
    let mut store = TicketStore::new();
    let draft = sample_draft(40);
    let patch = sample_patch(Status::Done);
    let ticket_id = store.save(draft.clone());

    wait_a_little();
    let updated_ticket = store.update(&ticket_id, patch.clone()).unwrap();

    assert_eq!(&patch.title.unwrap(), updated_ticket.title());
    assert_eq!(&patch.description.unwrap(), updated_ticket.description());
    assert_eq!(&patch.status.unwrap(), updated_ticket.status());
    assert_ne!(updated_ticket.created_at(), updated_ticket.updated_at());
}

#[test]
fn delete_works() {
    let mut store = TicketStore::new();
    let draft = sample_draft(8);
    let ticket_id = store.save(draft.clone());
    let ticket = store.get(&ticket_id).unwrap().to_owned();

    let deleted_ticket = store.delete(&ticket_id).unwrap();

    assert_eq!(deleted_ticket.ticket(), &ticket);
    assert_eq!(store.get(&ticket_id), None);
}

#[test]
fn deleting_a_missing_ticket_returns_none() {
    let mut store = TicketStore::new();
    let ticket_id = 31337;

    assert_eq!(store.delete(&ticket_id), None);
}

#[test]
fn list_returns_all_tickets() {
    let n_tickets = 100;
    let mut store = TicketStore::new();

    for i in 0..n_tickets {
        let draft = sample_draft(i);
        store.save(draft);
    }

    assert_eq!(n_tickets, store.list().len());
}

#[test]
fn on_a_single_ticket_list_and_get_agree() {
    let mut store = TicketStore::new();

    let draft = sample_draft(1);
    let id = store.save(draft);

    assert_eq!(vec![store.get(&id).unwrap()], store.list());
}

#[test]
fn list_returns_an_empty_vec_on_an_empty_store() {
    let store = TicketStore::new();

    assert!(store.list().is_empty());
}

#[test]
fn ids_are_not_reused() {
    let n_tickets = 100;
    let mut store = TicketStore::new();

    for expected_id in 1..n_tickets {
        let draft = sample_draft(expected_id as usize);
        let ticket_id = store.save(draft);
        assert_eq!(expected_id, ticket_id);
        assert!(store.delete(&ticket_id).is_some());
    }
}

#[test]
fn ids_stay_retired_across_mixed_operations() {
    let mut store = TicketStore::new();
    let a = store.save(sample_draft(1));
    let b = store.save(sample_draft(2));
    assert!(store.delete(&a).is_some());
    let c = store.save(sample_draft(3));
    assert!(store.delete(&c).is_some());
    assert!(store.update(&b, sample_patch(Status::Blocked)).is_some());
    let d = store.save(sample_draft(4));
    assert_eq!((a, b, c, d), (1, 2, 3, 4));
    assert_eq!(store.current_id(), 4);
}

#[test]
fn list_skips_deleted_tickets() {
    let mut store = TicketStore::new();
    for i in 0..5 {
        store.save(sample_draft(i));
    }
    store.delete(&2);
    store.delete(&5);
    let mut ids: Vec<TicketId> = store.list().iter().map(|t| *t.id()).collect();
    ids.sort();
    assert_eq!(ids, vec![1, 3, 4]);
}

#[test]
fn unknown_ids_leave_the_store_alone() {
    let mut store = TicketStore::new();
    store.save_at(sample_draft(1), at(10));
    let before = store.to_snapshot();
    assert!(store.update_at(&9, sample_patch(Status::Done), at(20)).is_none());
    assert!(store.delete_at(&9, at(20)).is_none());
    let after = store.to_snapshot();
    assert_eq!(after.tickets.len(), 1);
    assert_eq!(after.tickets, before.tickets);
    assert_eq!(store.current_id(), 1);
}

#[test]
fn empty_patch_only_moves_the_update_instant() {
    let mut store = TicketStore::new();
    let id = store.save_at(sample_draft(9), at(100));
    let empty = TicketPatch { title: None, description: None, status: None };
    let t = store.update_at(&id, empty.clone(), at(150)).unwrap().clone();
    assert_eq!(t.title().as_str(), "Ticket number 9");
    assert_eq!(t.status(), &Status::ToDo);
    assert_eq!(t.created_at(), &at(100));
    assert_eq!(t.updated_at(), &at(150));
    // A clock that went back leaves the last update where it was.
    let t = store.update_at(&id, empty, at(120)).unwrap();
    assert_eq!(t.updated_at(), &at(150));
}

#[test]
fn fix_login_bug_scenario() {
    let mut store = TicketStore::new();
    let draft = TicketDraft::new(
        "Fix login bug".to_string(),
        "Users cannot log in with SSO".to_string(),
    )
    .unwrap();
    let id = store.save_at(draft, at(1_000));
    assert_eq!(id, 1);
    let created = store.get(&id).unwrap().clone();
    assert_eq!(created.status(), &Status::ToDo);
    assert_eq!(created.created_at(), created.updated_at());

    let patch = TicketPatch { title: None, description: None, status: Some(Status::Done) };
    let patched = store.update_at(&id, patch, at(1_005)).unwrap().clone();
    assert_eq!(patched.id(), &1);
    assert_eq!(patched.title().as_str(), "Fix login bug");
    assert_eq!(patched.description().as_str(), "Users cannot log in with SSO");
    assert_eq!(patched.status(), &Status::Done);
    assert!(patched.created_at().no_later_than(patched.updated_at()));
    assert_ne!(patched.created_at(), patched.updated_at());

    let gone = store.delete_at(&id, at(1_010)).unwrap();
    assert_eq!(gone.ticket(), &patched);
    assert_eq!(gone.deleted_at(), &at(1_010));
    assert_eq!(store.get(&1), None);
}

#[test]
fn commands_drive_the_store() {
    let mut store = TicketStore::new();
    let create = Command::Create {
        title: TicketTitle::new("Write docs".to_string()).unwrap(),
        description: TicketDescription::new("All of them".to_string()).unwrap(),
    };
    match handle_command(&mut store, create) {
        CommandOutcome::Created(id) => assert_eq!(id, 1),
        _ => panic!("expected a creation"),
    }
    let edit = Command::Edit { id: 1, status: Some(Status::InProgress), description: None, title: None };
    match handle_command(&mut store, edit) {
        CommandOutcome::Edited(id, Some(t)) => {
            assert_eq!(id, 1);
            assert_eq!(t.status(), &Status::InProgress);
            assert_eq!(t.title().as_str(), "Write docs");
        }
        _ => panic!("expected an edit"),
    }
    match handle_command(&mut store, Command::List) {
        CommandOutcome::Listed(v) => {
            assert_eq!(v.len(), 1);
            assert_eq!(v[0].id(), &1);
        }
        _ => panic!("expected a listing"),
    }
    match handle_command(&mut store, Command::Delete { ticket_id: 7 }) {
        CommandOutcome::Deleted(id, None) => assert_eq!(id, 7),
        _ => panic!("expected a missed deletion"),
    }
    match handle_command(&mut store, Command::Delete { ticket_id: 1 }) {
        CommandOutcome::Deleted(1, Some(d)) => assert_eq!(d.ticket().status(), &Status::InProgress),
        _ => panic!("expected a deletion"),
    }
    match handle_command(&mut store, Command::List) {
        CommandOutcome::Listed(v) => assert!(v.is_empty()),
        _ => panic!("expected a listing"),
    }
}

#[test]
fn ids_continue_after_emptying_and_reloading() {
    let mut store = TicketStore::new();
    for i in 1..10 {
        assert_eq!(store.save(sample_draft(i as usize)), i);
        assert!(store.delete(&i).is_some());
    }
    assert!(store.list().is_empty());
    let mut reloaded = TicketStore::from_snapshot(&store.to_snapshot()).unwrap();
    assert_eq!(reloaded.save(sample_draft(10)), 10);
}

#[test]
fn the_clock_stamps_new_tickets() {
    let mut store = TicketStore::new();
    let id = store.save(sample_draft(4));
    let t = store.get(&id).unwrap();
    assert!(t.created_at().secs > 1_600_000_000);
    assert!(t.created_at().nanos < 1_000_000_000);
}
