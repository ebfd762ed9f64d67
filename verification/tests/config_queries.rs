use event_rollup::config::{
    config_by_application_id, create_config, delete_config, is_valid_application, update_config,
    ConfigSnapshot,
};
use event_rollup::dispatch::log_event;
use event_rollup::models::{
    Config, EngineError, NewConfig, NewEvent, NewKeyPair, UpdateConfig, WindowType,
};
use event_rollup::queries::{all_events, count_events_by_group, query_event_groups};
use event_rollup::store::Store;

fn kp(key: &str, value: &str) -> NewKeyPair {
    NewKeyPair { key: String::from(key), value: String::from(value) }
}

fn base_snapshot() -> ConfigSnapshot {
    ConfigSnapshot {
        configs: vec![Config {
            application_id: String::from("app"),
            windows: vec![WindowType::Day],
            groups: vec![String::from("country"), String::from("country|city")],
            log_all_events: Some(true),
        }],
    }
}

#[test]
fn create_config_canonicalizes_to_lowercase() {
    let mut snapshot = ConfigSnapshot { configs: vec![] };
    let new_config = NewConfig {
        application_id: String::from("MyApp"),
        windows: vec![WindowType::Hour],
        groups: vec![String::from("Country|City")],
        log_all_events: None,
    };
    let stored = create_config(&mut snapshot, &new_config).unwrap();
    assert_eq!(stored.application_id, "myapp");
    assert_eq!(stored.groups, vec![String::from("country|city")]);
    assert_eq!(snapshot.configs.len(), 1);

    let again = create_config(&mut snapshot, &new_config);
    assert_eq!(again.unwrap_err(), EngineError::DuplicateApplicationId);
    assert_eq!(snapshot.configs.len(), 1);
}

#[test]
fn validity_is_case_insensitive() {
    let snapshot = base_snapshot();
    assert!(is_valid_application(&snapshot, &String::from("app")));
    assert!(is_valid_application(&snapshot, &String::from("APP")));
    assert!(!is_valid_application(&snapshot, &String::from("other")));
}

#[test]
fn config_lookup_is_exact() {
    let snapshot = base_snapshot();
    let found = config_by_application_id(&snapshot, &String::from("app")).unwrap();
    assert_eq!(found.application_id, "app");
    // the point lookup does not canonicalize its argument
    let missing = config_by_application_id(&snapshot, &String::from("APP"));
    assert_eq!(missing.unwrap_err(), EngineError::NotFound);
}

#[test]
fn update_config_replaces_given_fields() {
    let mut snapshot = base_snapshot();
    let update = UpdateConfig {
        windows: None,
        groups: Some(vec![String::from("Region")]),
        log_all_events: Some(false),
    };
    let updated = update_config(&mut snapshot, &String::from("APP"), &update).unwrap();
    assert_eq!(updated.groups, vec![String::from("region")]);
    assert_eq!(updated.windows, vec![WindowType::Day]);
    assert_eq!(updated.log_all_events, Some(false));
    assert_eq!(snapshot.configs[0].groups, vec![String::from("region")]);

    let missing = update_config(&mut snapshot, &String::from("ghost"), &update);
    assert_eq!(missing.unwrap_err(), EngineError::NotFound);
}

#[test]
fn delete_config_removes_the_tenant() {
    let mut snapshot = base_snapshot();
    assert!(delete_config(&mut snapshot, &String::from("APP")).is_ok());
    assert!(snapshot.configs.is_empty());
    let missing = delete_config(&mut snapshot, &String::from("app"));
    assert_eq!(missing.unwrap_err(), EngineError::NotFound);
}

#[test]
fn all_events_lists_the_raw_log() {
    let mut store = Store::new();
    let snapshot = base_snapshot();
    let app = String::from("app");
    let e1 = NewEvent { id: None, keys: vec![kp("country", "US")], timestamp: 100 };
    let e2 = NewEvent { id: None, keys: vec![kp("country", "FR")], timestamp: 200 };
    log_event(&mut store, &snapshot, &app, &e1, 1).unwrap();
    log_event(&mut store, &snapshot, &app, &e2, 2).unwrap();

    let events = all_events(&store, &snapshot, &app).unwrap();
    assert_eq!(events.len(), 2);
    assert_eq!(events[0].id, "0");
    assert_eq!(events[0].timestamp, 100);
    assert_eq!(events[1].id, "1");
    assert_eq!(events[1].keys[0].value, "fr");

    let invalid = all_events(&store, &snapshot, &String::from("ghost"));
    assert_eq!(invalid.unwrap_err(), EngineError::InvalidApplicationId);
}

#[test]
fn count_events_by_group_sums_matching_buckets() {
    let mut store = Store::new();
    let snapshot = base_snapshot();
    let app = String::from("app");
    // two events on day one, one event on day two, all in the same city
    let day1 = 1588291200;
    let day2 = day1 + 86400;
    for (ts, receipt) in [(day1 + 10, 1i64), (day1 + 20, 2), (day2 + 30, 3)] {
        let e = NewEvent {
            id: None,
            keys: vec![kp("country", "US"), kp("city", "NYC")],
            timestamp: ts,
        };
        log_event(&mut store, &snapshot, &app, &e, receipt).unwrap();
    }
    let response = count_events_by_group(
        &store,
        &snapshot,
        &app,
        &WindowType::Day,
        day1,
        day2 + 100,
        "country|city",
        "US",
    )
    .unwrap();
    assert_eq!(response.total_record_count, 2);
    assert_eq!(response.total_aggregate_count, 3);
    assert_eq!(response.counts.len(), 2);
    assert_eq!(response.counts[0].timestamp, day1 as i64);
    assert_eq!(response.counts[0].record_count, 1);
    assert_eq!(response.counts[0].aggregate_count, 2);
    assert_eq!(response.counts[1].timestamp, day2 as i64);
    assert_eq!(response.counts[1].record_count, 1);
    assert_eq!(response.counts[1].aggregate_count, 1);

    let invalid = count_events_by_group(
        &store,
        &snapshot,
        &String::from("ghost"),
        &WindowType::Day,
        day1,
        day2,
        "country|city",
        "us",
    );
    assert_eq!(invalid.unwrap_err(), EngineError::InvalidApplicationId);
}

#[test]
fn query_event_groups_filters_by_range_and_grouping() {
    let mut store = Store::new();
    let snapshot = base_snapshot();
    let app = String::from("app");
    let day1 = 1588291200;
    let day2 = day1 + 86400;
    for ts in [day1 + 10, day2 + 20] {
        let e = NewEvent {
            id: None,
            keys: vec![kp("country", "US"), kp("city", "NYC")],
            timestamp: ts,
        };
        log_event(&mut store, &snapshot, &app, &e, 0).unwrap();
    }
    // both days, the coarse grouping only
    let coarse = query_event_groups(
        &store,
        &snapshot,
        &app,
        &WindowType::Day,
        day1,
        day2,
        &Some(String::from("Country")),
        &None,
    )
    .unwrap();
    assert_eq!(coarse.len(), 2);
    assert!(coarse.iter().all(|b| b.grouping == "country"));
    // restrict the range to the first day
    let first_day = query_event_groups(
        &store,
        &snapshot,
        &app,
        &WindowType::Day,
        day1,
        day1 + 100,
        &None,
        &None,
    )
    .unwrap();
    assert_eq!(first_day.len(), 2);
    assert!(first_day.iter().all(|b| b.timestamp == day1 as i64));
    // nested filter: only the fine bucket carries exactly ["us"]
    let nested = query_event_groups(
        &store,
        &snapshot,
        &app,
        &WindowType::Day,
        day1,
        day2,
        &None,
        &Some(String::from("US")),
    )
    .unwrap();
    assert_eq!(nested.len(), 2);
    assert!(nested.iter().all(|b| b.grouping == "country|city"));

    let invalid = query_event_groups(
        &store,
        &snapshot,
        &String::from("ghost"),
        &WindowType::Day,
        day1,
        day2,
        &None,
        &None,
    );
    assert_eq!(invalid.unwrap_err(), EngineError::InvalidApplicationId);
}
