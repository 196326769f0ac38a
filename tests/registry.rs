use docgen::clients::ClientStore;
use docgen::counters::{CounterStore, Counters};
use docgen::error::StoreError;
use docgen::models::{Client, NewClient, NewProject};
use docgen::projects::ProjectStore;
use docgen::refs::{parse_client_id, parse_project_ref, resolve_project_ref};

fn named(name: &str) -> NewClient {
    NewClient {
        name: name.to_string(),
        ..Default::default()
    }
}

#[test]
fn test_client_store_basic() {
    let mut store = ClientStore::new("clients.json");
    let mut counter = CounterStore::new("counters.json");

    // Initially empty
    assert_eq!(store.list().len(), 0);

    let new_client = NewClient {
        name: "Test Client".to_string(),
        company: Some("Test Co".to_string()),
        ..Default::default()
    };

    let client = store.add(new_client, &mut counter).unwrap();
    assert_eq!(client.number, 1);
    assert_eq!(client.name, "Test Client");

    let clients = store.list();
    assert_eq!(clients.len(), 1);
    assert_eq!(clients[0].name, "Test Client");
}

#[test]
fn test_counter_store() {
    let mut store = CounterStore::new("counters.json");

    assert_eq!(store.next("invoice").unwrap(), 1);
    assert_eq!(store.next("invoice").unwrap(), 2);
    assert_eq!(store.next("offer").unwrap(), 1);
    assert_eq!(store.get("invoice").unwrap(), 2);
    assert_eq!(store.get("offer").unwrap(), 1);
}

#[test]
fn test_project_store_per_client_numbering() {
    let mut clients = ClientStore::new("clients.json");
    let mut counter = CounterStore::new("counters.json");
    let c1 = clients.add(named("Client One"), &mut counter).unwrap();
    let c2 = clients.add(named("Client Two"), &mut counter).unwrap();
    assert_eq!((c1.id, c2.id), (1, 2));

    let mut store = ProjectStore::new("projects.json");
    let p1 = store
        .add(NewProject::new(1, "Project 1".to_string()), &clients)
        .unwrap();
    let p2 = store
        .add(NewProject::new(1, "Project 2".to_string()), &clients)
        .unwrap();
    assert_eq!(p1.number, 1);
    assert_eq!(p2.number, 2);

    let p3 = store
        .add(NewProject::new(2, "Project 1".to_string()), &clients)
        .unwrap();
    assert_eq!(p3.number, 1);
}

#[test]
fn sequential_adds_number_one_to_n() {
    let mut store = ClientStore::default();
    let mut counter = CounterStore::default();
    for n in 1..=5 {
        let c = store.add(named("C"), &mut counter).unwrap();
        assert_eq!(c.number, n);
        assert_eq!(c.id, n);
    }
    assert_eq!(counter.get("client").unwrap(), 5);
}

#[test]
fn first_projects_of_two_clients_are_both_one() {
    let mut clients = ClientStore::default();
    let mut counter = CounterStore::default();
    let a = clients.add(named("A"), &mut counter).unwrap();
    let b = clients.add(named("B"), &mut counter).unwrap();
    let mut projects = ProjectStore::default();
    let pa = projects.add(NewProject::new(a.id, "X".to_string()), &clients).unwrap();
    let pb = projects.add(NewProject::new(b.id, "Y".to_string()), &clients).unwrap();
    assert_eq!(pa.number, 1);
    assert_eq!(pb.number, 1);
    assert_eq!(pa.formatted_number(a.number), "P-001-01");
    assert_eq!(pb.formatted_number(b.number), "P-002-01");
}

#[test]
fn deleted_client_number_is_not_reused() {
    let mut clients = ClientStore::default();
    let mut counter = CounterStore::default();
    let projects = ProjectStore::default();
    clients.add(named("One"), &mut counter).unwrap();
    let second = clients.add(named("Two"), &mut counter).unwrap();
    clients.add(named("Three"), &mut counter).unwrap();
    clients.delete(second.id, &projects).unwrap();
    let fourth = clients.add(named("Four"), &mut counter).unwrap();
    assert_eq!(fourth.number, 4);
    let numbers: Vec<i64> = clients.list().iter().map(|c| c.number).collect();
    assert_eq!(numbers, vec![1, 3, 4]);
}

#[test]
fn delete_blocked_while_projects_exist() {
    let mut clients = ClientStore::default();
    let mut counter = CounterStore::default();
    let c = clients.add(named("Client With Project"), &mut counter).unwrap();
    let mut projects = ProjectStore::default();
    let p = projects.add(NewProject::new(c.id, "Test Project".to_string()), &clients).unwrap();

    let err = clients.delete(c.id, &projects).unwrap_err();
    assert_eq!(err, StoreError::HasDependentProjects(1));
    assert_eq!(clients.list().len(), 1);
    assert_eq!(projects.list().len(), 1);

    projects.delete(p.id).unwrap();
    clients.delete(c.id, &projects).unwrap();
    assert_eq!(clients.list().len(), 0);
}

#[test]
fn delete_unknown_ids() {
    let mut clients = ClientStore::default();
    let mut projects = ProjectStore::default();
    assert_eq!(
        clients.delete(42, &projects),
        Err(StoreError::ClientNotFound("42".to_string()))
    );
    assert_eq!(
        projects.delete(-3),
        Err(StoreError::ProjectNotFound("-3".to_string()))
    );
}

#[test]
fn project_for_missing_client_is_refused() {
    let clients = ClientStore::default();
    let mut projects = ProjectStore::default();
    let r = projects.add(NewProject::new(9, "Orphan".to_string()), &clients);
    assert_eq!(r.unwrap_err(), StoreError::ClientNotFound("9".to_string()));
    assert_eq!(projects.list().len(), 0);
}

#[test]
fn scenario_first_client_is_k001() {
    let mut clients = ClientStore::default();
    let mut counter = CounterStore::default();
    let c = clients.add(named("Acme"), &mut counter).unwrap();
    assert_eq!(c.number, 1);
    assert_eq!(c.formatted_number(), "K-001");
    let all = clients.list();
    assert_eq!(all.len(), 1);
    assert_eq!(all[0].name, "Acme");
    assert!(!all[0].created_at.is_empty());
    assert!(all[0].created_at.contains('T'));
}

#[test]
fn scenario_two_projects_of_k001() {
    let mut clients = ClientStore::default();
    let mut counter = CounterStore::default();
    let k1 = clients.add(named("Acme"), &mut counter).unwrap();
    let mut projects = ProjectStore::default();
    let a = projects.add(NewProject::new(k1.id, "Site".to_string()), &clients).unwrap();
    let b = projects.add(NewProject::new(k1.id, "Site".to_string()), &clients).unwrap();
    assert_eq!(a.formatted_number(k1.number), "P-001-01");
    assert_eq!(b.formatted_number(k1.number), "P-001-02");
    assert_eq!(a.status, "active");
    assert_eq!(projects.list_by_client(k1.id).len(), 2);
}

#[test]
fn listing_twice_gives_the_same_records() {
    let mut clients = ClientStore::default();
    let mut counter = CounterStore::default();
    clients.add(named("A"), &mut counter).unwrap();
    clients.add(named("B"), &mut counter).unwrap();
    let first: Vec<(i64, i64, String)> =
        clients.list().into_iter().map(|c| (c.id, c.number, c.name)).collect();
    let second: Vec<(i64, i64, String)> =
        clients.list().into_iter().map(|c| (c.id, c.number, c.name)).collect();
    assert_eq!(first, second);
}

#[test]
fn counter_names_and_limits() {
    let mut store = CounterStore::new("counters.json");
    assert_eq!(
        store.next("invioce"),
        Err(StoreError::InvalidCounterName("invioce".to_string()))
    );
    assert_eq!(
        store.get("bogus"),
        Err(StoreError::InvalidCounterName("bogus".to_string()))
    );
    assert_eq!(store.get("documentation").unwrap(), 0);
    let full = Counters {
        client: 0,
        invoice: i64::MAX,
        offer: 0,
        credentials: 0,
        concept: 0,
        documentation: 0,
    };
    let mut store = CounterStore::with_counters("counters.json", full);
    assert_eq!(
        store.next("invoice"),
        Err(StoreError::Exhausted("invoice".to_string()))
    );
    assert_eq!(store.counters(), full);
    assert_eq!(store.next("concept").unwrap(), 1);
    assert_eq!(store.path(), "counters.json");
}

fn record(id: i64, number: i64) -> Client {
    Client {
        id,
        number,
        name: format!("C{}", number),
        company: None,
        street: None,
        house_number: None,
        postal_code: None,
        city: None,
        country: None,
        email: None,
        phone: None,
        notes: None,
        created_at: "2024-01-01T00:00:00+00:00".to_string(),
    }
}

#[test]
fn loaded_records_keep_ids_and_grow_past_the_largest() {
    let r = ClientStore::from_records("clients.json", vec![record(1, 1), record(1, 2)]);
    assert_eq!(r.err(), Some(StoreError::DuplicateId(1)));

    let mut store =
        ClientStore::from_records("clients.json", vec![record(5, 1), record(2, 2)]).unwrap();
    let mut counter = CounterStore::with_counters(
        "counters.json",
        Counters {
            client: 2,
            invoice: 0,
            offer: 0,
            credentials: 0,
            concept: 0,
            documentation: 0,
        },
    );
    let c = store.add(named("New"), &mut counter).unwrap();
    assert_eq!((c.id, c.number), (6, 3));
    assert_eq!(store.get(2).unwrap().number, 2);
    assert_eq!(store.get_by_number(1).unwrap().id, 5);
    assert!(store.get(7).is_none());
    assert!(store.get_by_number(9).is_none());
}

#[test]
fn client_references_resolve() {
    let mut store =
        ClientStore::from_records("clients.json", vec![record(3, 7), record(7, 1)]).unwrap();
    // a bare integer matches display numbers before ids
    assert_eq!(parse_client_id(&store, "7").unwrap(), 3);
    assert_eq!(parse_client_id(&store, "1").unwrap(), 7);
    assert_eq!(parse_client_id(&store, "3").unwrap(), 3);
    assert_eq!(parse_client_id(&store, "K-007").unwrap(), 3);
    assert_eq!(parse_client_id(&store, "k-007").unwrap(), 3);
    assert_eq!(parse_client_id(&store, "K-1").unwrap(), 7);
    assert_eq!(
        parse_client_id(&store, "K-003"),
        Err(StoreError::ClientNotFound("K-003".to_string()))
    );
    assert_eq!(
        parse_client_id(&store, "Acme"),
        Err(StoreError::ClientNotFound("Acme".to_string()))
    );
    let mut counter = CounterStore::default();
    store.add(named("x"), &mut counter).unwrap();
    assert_eq!(parse_client_id(&store, "8").unwrap(), 8);
}

#[test]
fn project_references_resolve_by_display_number() {
    let mut clients = ClientStore::default();
    let mut counter = CounterStore::default();
    let a = clients.add(named("A"), &mut counter).unwrap();
    let b = clients.add(named("B"), &mut counter).unwrap();
    let mut projects = ProjectStore::default();
    projects.add(NewProject::new(a.id, "A1".to_string()), &clients).unwrap();
    let a2 = projects.add(NewProject::new(a.id, "A2".to_string()), &clients).unwrap();
    let b1 = projects.add(NewProject::new(b.id, "B1".to_string()), &clients).unwrap();

    assert_eq!(parse_project_ref("P-001-02").unwrap(), (1, 2));
    assert_eq!(resolve_project_ref(&projects, &clients, "P-001-02").unwrap(), a2.id);
    assert_eq!(resolve_project_ref(&projects, &clients, "P-002-01").unwrap(), b1.id);
    assert_eq!(resolve_project_ref(&projects, &clients, "2-1").unwrap(), b1.id);
    assert_eq!(
        resolve_project_ref(&projects, &clients, "P-002-05"),
        Err(StoreError::ProjectNotFound("P-002-05".to_string()))
    );
    assert_eq!(
        resolve_project_ref(&projects, &clients, "P-009-01"),
        Err(StoreError::ProjectNotFound("P-009-01".to_string()))
    );
    assert_eq!(
        parse_project_ref("P-001"),
        Err(StoreError::InvalidReferenceFormat("P-001".to_string()))
    );
    assert_eq!(
        parse_project_ref("P-001-0x"),
        Err(StoreError::InvalidReferenceFormat("P-001-0x".to_string()))
    );
    assert_eq!(
        parse_project_ref("P-P-001-01"),
        Err(StoreError::InvalidReferenceFormat("P-P-001-01".to_string()))
    );
    assert_eq!(parse_project_ref("001-01").unwrap(), (1, 1));
    assert_eq!(
        resolve_project_ref(&projects, &clients, "P-1-2-3"),
        Err(StoreError::InvalidReferenceFormat("P-1-2-3".to_string()))
    );

    projects.delete(a2.id).unwrap();
    assert!(projects.get(a2.id).is_none());
    let a3 = projects.add(NewProject::new(a.id, "A3".to_string()), &clients).unwrap();
    assert_eq!(a3.number, 2);
    assert_eq!(projects.get(a3.id).unwrap().name, "A3");
}
