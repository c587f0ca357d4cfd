use eventsdb::attr::{AttributeMap, AttributeValue};
use eventsdb::codec::event_key;
use eventsdb::error::Error;
use eventsdb::store::{needs_table_creation, EventsDB, MemoryEventsDB, StoreOptions};
use eventsdb::types::{ApiEventInfo, EventData, EventEntry, EventState, EventTokens, States};

fn sample_event(token: &str) -> ApiEventInfo {
    ApiEventInfo {
        tokens: EventTokens {
            public_token: String::from(token),
            moderator_token: None,
        },
        data: EventData {
            name: String::from("name"),
            description: String::from("desc"),
            short_url: String::from(""),
            long_url: None,
            mail: None,
        },
        create_time_unix: 1,
        delete_time_unix: 0,
        deleted: false,
        premium_order: None,
        last_edit_unix: 2,
        questions: vec![],
        state: EventState {
            state: States::Open,
        },
    }
}

#[test]
fn get_on_empty_store_is_not_found() {
    let db = MemoryEventsDB::new();
    assert!(matches!(db.get("token1"), Err(Error::NotFound)));
}

#[test]
fn optimistic_concurrency_scenario() {
    let mut db = MemoryEventsDB::new();

    // Create the record for "token1" with version 0: the put succeeds and
    // the stored version becomes 0.
    let entry = EventEntry::new(sample_event("token1"), None);
    assert_eq!(entry.version, 0);
    db.put(entry.clone()).unwrap();
    let first = db.get("token1").unwrap();
    assert_eq!(first.version, 0);

    // The caller reads it back, bumps it to version 1 and puts again with
    // the guard "previous version == 0": the put succeeds.
    let mut second = first;
    second.bump(42);
    assert_eq!(second.version, 1);
    assert_eq!(second.event.last_edit_unix, 42);
    db.put(second).unwrap();
    assert_eq!(db.get("token1").unwrap().version, 1);

    // A second caller who read the version-0 snapshot concurrently attempts
    // a put with the same guard after the first succeeded: it fails with the
    // concurrency error, and the stored version stays 1.
    let mut stale = entry;
    stale.bump(43);
    assert_eq!(stale.version, 1);
    assert!(matches!(db.put(stale), Err(Error::Concurrency)));
    assert_eq!(db.get("token1").unwrap().version, 1);
}

#[test]
fn version_increases_by_one_each_put() {
    let mut db = MemoryEventsDB::new();
    let mut entry = EventEntry::new(sample_event("tok"), None);
    db.put(entry.clone()).unwrap();
    for round in 1..5i64 {
        entry.bump(round);
        db.put(entry.clone()).unwrap();
        let stored = db.get("tok").unwrap();
        assert_eq!(stored.version, round as usize);
    }
    // Skipping a version is rejected.
    let mut skipping = db.get("tok").unwrap();
    skipping.bump(9);
    skipping.bump(10);
    assert!(matches!(db.put(skipping), Err(Error::Concurrency)));
    assert_eq!(db.get("tok").unwrap().version, 4);
}

#[test]
fn first_write_is_guarded() {
    let mut db = MemoryEventsDB::new();
    let entry = EventEntry::new(sample_event("tok"), None);
    db.put(entry.clone()).unwrap();
    // A second version-0 write on the same key is a conflict, not a silent
    // overwrite.
    assert!(matches!(db.put(entry), Err(Error::Concurrency)));
}

#[test]
fn put_on_absent_key_with_nonzero_version_is_conflict() {
    let mut db = MemoryEventsDB::new();
    let mut entry = EventEntry::new(sample_event("tok"), None);
    entry.bump(1);
    assert!(matches!(db.put(entry), Err(Error::Concurrency)));
    assert!(matches!(db.get("tok"), Err(Error::NotFound)));
}

#[test]
fn mistyped_version_field_is_malformed() {
    let mut db = MemoryEventsDB::new();
    let mut item: AttributeMap = Vec::new();
    item.push((String::from("v"), AttributeValue::S(String::from("zero"))));
    db.insert_raw(event_key("bad"), item);
    match db.get("bad") {
        Err(Error::Malformed(f)) => assert_eq!(f, "v"),
        _ => panic!("expected a malformed version field"),
    }
}

#[test]
fn unparseable_version_field_is_malformed() {
    let mut db = MemoryEventsDB::new();
    let mut item: AttributeMap = Vec::new();
    item.push((String::from("v"), AttributeValue::N(String::from("12x"))));
    db.insert_raw(event_key("bad"), item);
    assert!(matches!(db.get("bad"), Err(Error::Malformed(_))));
}

#[test]
fn negative_version_field_is_malformed() {
    let mut db = MemoryEventsDB::new();
    let mut item: AttributeMap = Vec::new();
    item.push((String::from("v"), AttributeValue::N(String::from("-1"))));
    db.insert_raw(event_key("bad"), item);
    assert!(matches!(db.get("bad"), Err(Error::Malformed(_))));
}

#[test]
fn missing_version_field_is_malformed() {
    let mut db = MemoryEventsDB::new();
    let item: AttributeMap = Vec::new();
    db.insert_raw(event_key("bad"), item);
    assert!(matches!(db.get("bad"), Err(Error::Malformed(_))));
}

#[test]
fn store_works_through_the_capability_trait() {
    fn roundtrip<S: EventsDB>(db: &mut S) {
        let entry = EventEntry::new(sample_event("via-trait"), Some(99));
        db.put(entry.clone()).unwrap();
        let read = db.get("via-trait").unwrap();
        assert_eq!(read, entry);
    }
    let mut db = MemoryEventsDB::new();
    roundtrip(&mut db);
}

#[test]
fn table_creation_only_when_requested_and_missing() {
    let names = vec![String::from("alpha"), String::from("liveask")];
    let present = StoreOptions {
        table: String::from("liveask"),
        check_table_exists: true,
    };
    let missing = StoreOptions {
        table: String::from("other"),
        check_table_exists: true,
    };
    let unchecked = StoreOptions {
        table: String::from("other"),
        check_table_exists: false,
    };
    assert!(!needs_table_creation(&present, &names));
    assert!(needs_table_creation(&missing, &names));
    assert!(!needs_table_creation(&unchecked, &names));
}
