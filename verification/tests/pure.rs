use event_rollup::grouping::{
    get_collection_name, get_group_id, get_hash_id, get_nested_groupings, lowercase_id,
};
use event_rollup::models::{KeyPairing, NewKeyPair, WindowType};
use event_rollup::window::get_timestamp_start;

fn kp(key: &str, value: &str) -> NewKeyPair {
    NewKeyPair { key: String::from(key), value: String::from(value) }
}

#[test]
fn hour_truncates_within_hour() {
    assert_eq!(get_timestamp_start(&WindowType::Hour, 7322), 7200);
    assert_eq!(get_timestamp_start(&WindowType::Hour, 7200), 7200);
    assert_eq!(get_timestamp_start(&WindowType::Hour, 10799), 7200);
    assert_eq!(get_timestamp_start(&WindowType::Hour, 10800), 10800);
}

#[test]
fn day_truncates_including_negative() {
    assert_eq!(get_timestamp_start(&WindowType::Day, 90000), 86400);
    assert_eq!(get_timestamp_start(&WindowType::Day, 86400), 86400);
    assert_eq!(get_timestamp_start(&WindowType::Day, -1), -86400);
}

#[test]
fn week_starts_on_monday() {
    // the epoch fell on a Thursday; its week began Monday 1969-12-29
    assert_eq!(get_timestamp_start(&WindowType::Week, 0), -259200);
    // Monday 1970-01-05 00:00:00 maps to itself
    assert_eq!(get_timestamp_start(&WindowType::Week, 345600), 345600);
    assert_eq!(get_timestamp_start(&WindowType::Week, 400000), 345600);
    // Sunday 1970-01-11 23:59:59 still belongs to that week
    assert_eq!(get_timestamp_start(&WindowType::Week, 950399), 345600);
    assert_eq!(get_timestamp_start(&WindowType::Week, 950400), 950400);
}

#[test]
fn month_truncates_to_first_of_month() {
    // 2020-05-15 12:34:00 UTC -> 2020-05-01 00:00:00 UTC
    assert_eq!(get_timestamp_start(&WindowType::Month, 1589545000), 1588291200);
    assert_eq!(get_timestamp_start(&WindowType::Month, 1588291200), 1588291200);
    // 1969-12-31 23:59:59 UTC -> 1969-12-01 00:00:00 UTC
    assert_eq!(get_timestamp_start(&WindowType::Month, -1), -2678400);
}

#[test]
fn alltime_collapses_every_timestamp() {
    assert_eq!(get_timestamp_start(&WindowType::AllTime, 0), -1);
    assert_eq!(get_timestamp_start(&WindowType::AllTime, i32::MAX), -1);
    assert_eq!(get_timestamp_start(&WindowType::AllTime, i32::MIN), -1);
    assert_eq!(get_timestamp_start(&WindowType::AllTime, -12345), -1);
}

#[test]
fn group_id_lowercases_keys_and_values() {
    let keys = vec![kp("Country", "US"), kp("City", "NYC")];
    assert_eq!(get_group_id("country|city", &keys), "us|nyc");
    let keys_lower = vec![kp("country", "us"), kp("city", "nyc")];
    assert_eq!(get_group_id("country|city", &keys_lower), "us|nyc");
}

#[test]
fn group_id_missing_key_resolves_to_null() {
    let keys = vec![kp("country", "us")];
    assert_eq!(get_group_id("country|city", &keys), "us|null");
    assert_eq!(get_group_id("city", &keys), "null");
    assert_eq!(get_group_id("", &keys), "null");
}

#[test]
fn group_id_is_deterministic() {
    let keys = vec![kp("a", "1"), kp("b", "2")];
    assert_eq!(get_group_id("a|b", &keys), get_group_id("a|b", &keys));
    assert_eq!(get_group_id("a|b", &keys), "1|2");
}

#[test]
fn group_id_takes_first_matching_attribute() {
    let keys = vec![kp("k", "first"), kp("K", "second")];
    assert_eq!(get_group_id("k", &keys), "first");
}

#[test]
fn nested_groupings_strict_leading_prefixes() {
    let all: Vec<String> = ["a", "a|b", "a|c", "a|b|c", "b|c", "a|b|c|d", "a|b|c|d|e"]
        .iter()
        .map(|s| String::from(*s))
        .collect();
    let nested = get_nested_groupings("a|b|c|d", &all);
    assert_eq!(nested, vec![String::from("a"), String::from("a|b"), String::from("a|b|c")]);
}

#[test]
fn nested_groupings_never_include_self() {
    let all: Vec<String> = ["country", "country|city"].iter().map(|s| String::from(*s)).collect();
    let nested = get_nested_groupings("country", &all);
    assert!(nested.is_empty());
    let nested2 = get_nested_groupings("country|city", &all);
    assert_eq!(nested2, vec![String::from("country")]);
}

#[test]
fn hash_id_composes_window_timestamp_and_group() {
    let keys = vec![kp("Country", "US")];
    assert_eq!(get_hash_id(&WindowType::Day, "country", &keys, 86400), "day|86400|us");
    assert_eq!(get_hash_id(&WindowType::AllTime, "country", &keys, -1), "alltime|-1|us");
    assert_eq!(
        get_hash_id(&WindowType::Month, "country|city", &keys, 1588291200),
        "month|1588291200|us|null"
    );
}

#[test]
fn collection_names_per_window_and_log() {
    let app = String::from("MyApp");
    assert_eq!(get_collection_name(&app, Some(&WindowType::Hour)), "myapp_events_hour");
    assert_eq!(get_collection_name(&app, Some(&WindowType::AllTime)), "myapp_events_alltime");
    assert_eq!(get_collection_name(&app, None), "myapp_all");
}

#[test]
fn lowercase_id_canonicalizes() {
    assert_eq!(lowercase_id(&String::from("AbC-09")), "abc-09");
    assert_eq!(lowercase_id(&String::from("already")), "already");
}

#[test]
fn keypair_lowercase_copies_both_fields() {
    let k = kp("KeY", "VaLuE");
    let low = k.lowercase();
    assert_eq!(low.key, "key");
    assert_eq!(low.value, "value");
    assert_eq!(k.key(), "key");
    assert_eq!(k.value(), "value");
}
