use event_rollup::bucket::{merge_into, new_bucket_from, Bucket, MergeInstruction};
use event_rollup::config::{configure, ConfigSnapshot};
use event_rollup::dispatch::{apply_plan_masked, build_merge_plan, log_event, log_events, now};
use event_rollup::models::{
    Config, EmbeddedEvent, EngineError, KeyPair, NewEvent, NewKeyPair, WindowType,
};
use event_rollup::queries::bucket_by_keys;
use event_rollup::store::{Collection, Store};

fn kp(key: &str, value: &str) -> NewKeyPair {
    NewKeyPair { key: String::from(key), value: String::from(value) }
}

fn single_config(windows: Vec<WindowType>, groups: Vec<&str>, log_all: Option<bool>) -> Config {
    Config {
        application_id: String::from("app"),
        windows,
        groups: groups.iter().map(|g| String::from(*g)).collect(),
        log_all_events: log_all,
    }
}

fn find_collection<'a>(store: &'a Store, name: &str) -> Option<&'a Collection> {
    store.collections.iter().find(|c| c.name == name)
}

fn find_bucket<'a>(col: &'a Collection, id: &str) -> Option<&'a Bucket> {
    col.buckets.iter().find(|b| b.hash == id)
}

#[test]
fn end_to_end_single_day_bucket() {
    let mut store = Store::new();
    let snapshot = ConfigSnapshot {
        configs: vec![single_config(vec![WindowType::Day], vec!["country"], None)],
    };
    // 2020-05-01 01:00:00 UTC, within the day starting 1588291200
    let event = NewEvent { id: None, keys: vec![kp("country", "US")], timestamp: 1588294800 };
    let r = log_event(&mut store, &snapshot, &String::from("app"), &event, 7).unwrap();
    assert!(r.success);
    assert!(r.inserted_id.is_none());

    let col = find_collection(&store, "app_events_day").expect("day namespace must exist");
    assert_eq!(col.buckets.len(), 1);
    let b = &col.buckets[0];
    assert_eq!(b.hash, "day|1588291200|us");
    assert_eq!(b.count, 1);
    assert_eq!(b.application_id, "app");
    assert_eq!(b.grouping, "country");
    assert_eq!(b.grouping_id, "us");
    assert_eq!(b.window, WindowType::Day);
    assert_eq!(b.timestamp, 1588291200);
    assert_eq!(b.events.len(), 1);
    assert_eq!(b.events[0].timestamp, 1588294800);
    assert_eq!(b.events[0].raw_timestamp, 7);
}

#[test]
fn end_to_end_two_events_merge_into_one_bucket() {
    let mut store = Store::new();
    let snapshot = ConfigSnapshot {
        configs: vec![single_config(vec![WindowType::Day], vec!["country"], None)],
    };
    let app = String::from("app");
    let e1 = NewEvent { id: None, keys: vec![kp("country", "US")], timestamp: 1588294800 };
    let e2 = NewEvent { id: None, keys: vec![kp("Country", "us")], timestamp: 1588300000 };
    log_event(&mut store, &snapshot, &app, &e1, 100).unwrap();
    log_event(&mut store, &snapshot, &app, &e2, 200).unwrap();

    let col = find_collection(&store, "app_events_day").unwrap();
    assert_eq!(col.buckets.len(), 1);
    let b = &col.buckets[0];
    assert_eq!(b.hash, "day|1588291200|us");
    assert_eq!(b.count, 2);
    assert_eq!(b.events.len(), 2);
    // arrival order is preserved in the history
    assert_eq!(b.events[0].raw_timestamp, 100);
    assert_eq!(b.events[1].raw_timestamp, 200);
    assert_eq!(b.events[0].timestamp, 1588294800);
    assert_eq!(b.events[1].timestamp, 1588300000);
}

#[test]
fn end_to_end_nested_grouping_ids() {
    let mut store = Store::new();
    let snapshot = ConfigSnapshot {
        configs: vec![single_config(vec![WindowType::Day], vec!["country", "country|city"], None)],
    };
    let event = NewEvent {
        id: None,
        keys: vec![kp("country", "US"), kp("city", "NYC")],
        timestamp: 1588294800,
    };
    log_event(&mut store, &snapshot, &String::from("app"), &event, 1).unwrap();

    let col = find_collection(&store, "app_events_day").unwrap();
    assert_eq!(col.buckets.len(), 2);
    let fine = find_bucket(col, "day|1588291200|us|nyc").expect("fine bucket");
    assert_eq!(fine.grouping, "country|city");
    assert_eq!(fine.nested_grouping_ids, vec![String::from("us")]);
    let coarse = find_bucket(col, "day|1588291200|us").expect("coarse bucket");
    assert_eq!(coarse.grouping, "country");
    assert!(coarse.nested_grouping_ids.is_empty());
}

#[test]
fn fan_out_covers_every_window_and_grouping() {
    let mut store = Store::new();
    let snapshot = ConfigSnapshot {
        configs: vec![single_config(
            vec![WindowType::Hour, WindowType::AllTime],
            vec!["country", "city"],
            None,
        )],
    };
    let event = NewEvent {
        id: None,
        keys: vec![kp("country", "US"), kp("city", "NYC")],
        timestamp: 7322,
    };
    log_event(&mut store, &snapshot, &String::from("app"), &event, 1).unwrap();

    let hour = find_collection(&store, "app_events_hour").unwrap();
    assert!(find_bucket(hour, "hour|7200|us").is_some());
    assert!(find_bucket(hour, "hour|7200|nyc").is_some());
    let alltime = find_collection(&store, "app_events_alltime").unwrap();
    assert!(find_bucket(alltime, "alltime|-1|us").is_some());
    assert!(find_bucket(alltime, "alltime|-1|nyc").is_some());
}

#[test]
fn invalid_application_is_rejected_before_any_merge() {
    let mut store = Store::new();
    let snapshot = ConfigSnapshot { configs: vec![] };
    let event = NewEvent { id: None, keys: vec![kp("country", "US")], timestamp: 0 };
    let r = log_event(&mut store, &snapshot, &String::from("ghost"), &event, 0);
    assert_eq!(r.unwrap_err(), EngineError::InvalidApplicationId);
    assert!(store.collections.is_empty());
}

#[test]
fn application_id_lookup_is_case_insensitive() {
    let mut store = Store::new();
    let snapshot = ConfigSnapshot {
        configs: vec![single_config(vec![WindowType::Day], vec!["country"], None)],
    };
    let event = NewEvent { id: None, keys: vec![kp("country", "US")], timestamp: 1588294800 };
    let r = log_event(&mut store, &snapshot, &String::from("APP"), &event, 0).unwrap();
    assert!(r.success);
    assert!(find_collection(&store, "app_events_day").is_some());
}

#[test]
fn raw_events_are_stored_when_configured() {
    let mut store = Store::new();
    let snapshot = ConfigSnapshot {
        configs: vec![single_config(vec![WindowType::Day], vec!["country"], Some(true))],
    };
    let app = String::from("app");
    let e1 = NewEvent { id: None, keys: vec![kp("country", "US")], timestamp: 1588294800 };
    let r1 = log_event(&mut store, &snapshot, &app, &e1, 0).unwrap();
    assert_eq!(r1.inserted_id, Some(String::from("0")));
    let r2 = log_event(&mut store, &snapshot, &app, &e1, 0).unwrap();
    assert_eq!(r2.inserted_id, Some(String::from("1")));

    let log = find_collection(&store, "app_all").expect("raw event log");
    assert_eq!(log.events.len(), 2);
    assert_eq!(log.events[0].id, "0");
    assert_eq!(log.events[0].keys[0].key, "country");
    assert_eq!(log.events[0].keys[0].value, "us");
    // the stored id is carried into the bucket history
    let col = find_collection(&store, "app_events_day").unwrap();
    assert_eq!(col.buckets[0].event_ids, vec![String::from("0"), String::from("1")]);
}

#[test]
fn merge_descriptive_fields_idempotent_history_additive() {
    let embedded1 = EmbeddedEvent {
        timestamp: 10,
        raw_timestamp: 100,
        ip_address: Some(String::from("10.0.0.1")),
        event_type: None,
    };
    let embedded2 = EmbeddedEvent {
        timestamp: 20,
        raw_timestamp: 200,
        ip_address: None,
        event_type: Some(String::from("click")),
    };
    let make = |embedded: EmbeddedEvent, event_id: Option<String>| MergeInstruction {
        collection: String::from("app_events_day"),
        bucket_id: String::from("day|0|us"),
        application_id: String::from("app"),
        grouping: String::from("country"),
        grouping_id: String::from("us"),
        nested_grouping_ids: vec![],
        window: WindowType::Day,
        bucket_start: 0,
        embedded,
        event_id,
    };
    let i1 = make(embedded1, None);
    let i2 = make(embedded2, Some(String::from("e2")));
    let mut b = new_bucket_from(&i1);
    assert_eq!(b.count, 1);
    let (app0, grp0, gid0, win0, ts0) = (
        b.application_id.clone(),
        b.grouping.clone(),
        b.grouping_id.clone(),
        b.window,
        b.timestamp,
    );
    merge_into(&mut b, &i2);
    assert_eq!(b.count, 2);
    assert_eq!(b.events.len(), 2);
    assert_eq!(b.application_id, app0);
    assert_eq!(b.grouping, grp0);
    assert_eq!(b.grouping_id, gid0);
    assert_eq!(b.window, win0);
    assert_eq!(b.timestamp, ts0);
    assert_eq!(b.hash, "day|0|us");
    // payloads were appended, not overwritten
    assert_eq!(b.events[0].raw_timestamp, 100);
    assert_eq!(b.events[1].raw_timestamp, 200);
    assert_eq!(b.event_ids, vec![String::from("e2")]);
}

#[test]
fn one_failed_merge_leaves_sibling_pairs_intact() {
    let mut store = Store::new();
    let config = single_config(vec![WindowType::Day, WindowType::AllTime], vec!["country"], None);
    let keys = vec![
        KeyPair { key: String::from("country"), value: String::from("us") },
    ];
    let plan = build_merge_plan(&config, &String::from("app"), &keys, 1588294800, 5, &None);
    assert_eq!(plan.len(), 2);
    // inject a failure for the first (window, grouping) pair
    let outcomes = apply_plan_masked(&mut store, &plan, &vec![true, false]);
    assert_eq!(outcomes, vec![false, true]);
    assert!(find_collection(&store, "app_events_day").is_none());
    let alltime = find_collection(&store, "app_events_alltime").unwrap();
    let b = find_bucket(alltime, "alltime|-1|us").expect("sibling bucket must exist");
    assert_eq!(b.count, 1);
}

#[test]
fn batch_logging_reports_per_event_outcomes() {
    let mut store = Store::new();
    let snapshot = ConfigSnapshot {
        configs: vec![single_config(vec![WindowType::Day], vec!["country"], None)],
    };
    let events = vec![
        NewEvent { id: None, keys: vec![kp("country", "US")], timestamp: 1588294800 },
        NewEvent { id: None, keys: vec![kp("country", "FR")], timestamp: 1588294900 },
    ];
    let results = log_events(&mut store, &snapshot, &String::from("app"), &events, 9);
    assert_eq!(results.len(), 2);
    assert!(results.iter().all(|r| r.success));
    let col = find_collection(&store, "app_events_day").unwrap();
    assert_eq!(col.buckets.len(), 2);

    let mut other = Store::new();
    let bad = log_events(&mut other, &snapshot, &String::from("ghost"), &events, 9);
    assert_eq!(bad.len(), 2);
    assert!(bad.iter().all(|r| !r.success && r.inserted_id.is_none()));
    assert!(other.collections.is_empty());
}

#[test]
fn bucket_lookup_by_keys_roundtrip() {
    let mut store = Store::new();
    let snapshot = ConfigSnapshot {
        configs: vec![single_config(vec![WindowType::Day], vec!["country"], None)],
    };
    let app = String::from("app");
    let event = NewEvent { id: None, keys: vec![kp("country", "US")], timestamp: 1588294800 };
    log_event(&mut store, &snapshot, &app, &event, 0).unwrap();

    let keys = vec![kp("Country", "US")];
    let found = bucket_by_keys(
        &store,
        &snapshot,
        &app,
        &WindowType::Day,
        1588299999,
        "country",
        &keys,
    )
    .unwrap();
    assert_eq!(found.hash, "day|1588291200|us");
    assert_eq!(found.count, 1);

    let missing = bucket_by_keys(
        &store,
        &snapshot,
        &app,
        &WindowType::Day,
        1588299999,
        "city",
        &keys,
    );
    assert_eq!(missing.unwrap_err(), EngineError::NotFound);

    let invalid = bucket_by_keys(
        &store,
        &snapshot,
        &String::from("ghost"),
        &WindowType::Day,
        1588299999,
        "country",
        &keys,
    );
    assert_eq!(invalid.unwrap_err(), EngineError::InvalidApplicationId);
}

#[test]
fn configure_creates_every_namespace() {
    let mut store = Store::new();
    let configs = vec![
        single_config(vec![WindowType::Hour, WindowType::Month], vec!["country"], None),
    ];
    let snapshot = configure(&mut store, configs);
    assert_eq!(snapshot.configs.len(), 1);
    let names: Vec<&str> = store.collections.iter().map(|c| c.name.as_str()).collect();
    assert_eq!(names, vec!["app_all", "app_events_hour", "app_events_month"]);
}

#[test]
fn bucket_events_pagination() {
    let mut events = Vec::new();
    for i in 0..15 {
        events.push(EmbeddedEvent {
            timestamp: i,
            raw_timestamp: i as i64,
            ip_address: None,
            event_type: None,
        });
    }
    let b = Bucket {
        hash: String::from("day|0|us"),
        application_id: String::from("app"),
        grouping: String::from("country"),
        grouping_id: String::from("us"),
        nested_grouping_ids: vec![],
        window: WindowType::Day,
        timestamp: 0,
        events,
        event_ids: vec![],
        count: 15,
    };
    // default limit is ten
    let page = b.events(None, None);
    assert_eq!(page.len(), 10);
    assert_eq!(page[0].timestamp, 0);
    assert_eq!(page[9].timestamp, 9);
    // skip moves the window, limit clamps to what remains
    let page = b.events(Some(10), Some(10));
    assert_eq!(page.len(), 5);
    assert_eq!(page[0].timestamp, 10);
    // skipping past the end yields nothing
    assert!(b.events(None, Some(16)).is_empty());
    // a negative skip yields nothing
    assert!(b.events(None, Some(-1)).is_empty());
    // a negative limit means all remaining entries
    let page = b.events(Some(-1), Some(3));
    assert_eq!(page.len(), 12);
    assert_eq!(page[0].timestamp, 3);
}

#[test]
fn clock_reads_seconds_since_epoch() {
    let t = now();
    assert!(t > 0);
}
