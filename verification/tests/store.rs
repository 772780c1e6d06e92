use tempo_bot::store::{EdfTempoStore, FetchError};
use tempo_bot::tempo::TempoDayState;

fn entry(key: &str, label: Option<&str>) -> (String, Option<String>) {
    (key.to_string(), label.map(|l| l.to_string()))
}

#[test]
fn response_gives_each_day_its_colour() {
    let body = br#"{"values": {"2024-12-24": "BLUE", "2024-12-25": "RED", "2024-12-26": "WHITE"}}"#;
    let store = EdfTempoStore::retrieve_info(body).unwrap();
    assert_eq!(store.retrieve_tempo_day_state("2024-12-24").unwrap().state(), TempoDayState::Bleu);
    assert_eq!(store.retrieve_tempo_day_state("2024-12-25").unwrap().state(), TempoDayState::Rouge);
    assert_eq!(store.retrieve_tempo_day_state("2024-12-26").unwrap().state(), TempoDayState::Blanc);
    assert_eq!(store.retrieve_tempo_day_state("2024-12-25").unwrap().day(), "2024-12-25");
    assert!(store.retrieve_tempo_day_state("2024-12-27").is_none());
}

#[test]
fn response_with_unknown_label_keeps_the_rest() {
    let body = br#"{"values": {"2024-12-24": "GREEN", "2024-12-25": "RED", "bogus": "UNKNOWN"}}"#;
    let store = EdfTempoStore::retrieve_info(body).unwrap();
    assert!(store.retrieve_tempo_day_state("2024-12-24").is_none());
    assert!(store.retrieve_tempo_day_state("bogus").is_none());
    assert_eq!(store.retrieve_tempo_day_state("2024-12-25").unwrap().state(), TempoDayState::Rouge);
}

#[test]
fn response_may_hold_other_members() {
    let body = br#"{"season": "2024-2025", "count": 3, "values": {"2024-12-25": "RED"}, "z": [1, 2]}"#;
    let store = EdfTempoStore::retrieve_info(body).unwrap();
    assert!(store.retrieve_tempo_day_state("2024-12-25").is_some());
}

#[test]
fn response_with_no_days_is_an_empty_snapshot() {
    let store = EdfTempoStore::retrieve_info(br#"{"values": {}}"#).unwrap();
    assert!(store.retrieve_tempo_day_state("2024-12-25").is_none());
}

#[test]
fn response_that_is_not_json_is_malformed() {
    assert_eq!(EdfTempoStore::retrieve_info(b"<html>").unwrap_err(), FetchError::MalformedResponse);
    assert_eq!(EdfTempoStore::retrieve_info(b"").unwrap_err(), FetchError::MalformedResponse);
    assert_eq!(
        EdfTempoStore::retrieve_info(br#"{"values": {"2024-12-25": "RED"}"#).unwrap_err(),
        FetchError::MalformedResponse
    );
}

#[test]
fn response_without_values_object_is_malformed() {
    assert_eq!(EdfTempoStore::retrieve_info(b"{}").unwrap_err(), FetchError::MalformedResponse);
    assert_eq!(EdfTempoStore::retrieve_info(b"[]").unwrap_err(), FetchError::MalformedResponse);
    assert_eq!(
        EdfTempoStore::retrieve_info(br#"{"values": ["2024-12-25"]}"#).unwrap_err(),
        FetchError::MalformedResponse
    );
    assert_eq!(
        EdfTempoStore::retrieve_info(br#"{"values": "RED"}"#).unwrap_err(),
        FetchError::MalformedResponse
    );
    assert_eq!(
        EdfTempoStore::retrieve_info(br#"{"Values": {"2024-12-25": "RED"}}"#).unwrap_err(),
        FetchError::MalformedResponse
    );
}

#[test]
fn response_with_a_label_that_is_no_string_is_malformed() {
    assert_eq!(
        EdfTempoStore::retrieve_info(br#"{"values": {"2024-12-25": 3}}"#).unwrap_err(),
        FetchError::MalformedResponse
    );
    assert_eq!(
        EdfTempoStore::retrieve_info(br#"{"values": {"2024-12-24": "BLUE", "2024-12-25": null}}"#)
            .unwrap_err(),
        FetchError::MalformedResponse
    );
}

#[test]
fn response_with_a_colour_for_what_is_no_day_is_malformed() {
    assert_eq!(
        EdfTempoStore::retrieve_info(br#"{"values": {"someday": "RED"}}"#).unwrap_err(),
        FetchError::MalformedResponse
    );
}

#[test]
fn entries_give_each_day_its_colour() {
    let entries = vec![entry("2024-12-24", Some("BLUE")), entry("2024-12-25", Some("RED"))];
    let store = EdfTempoStore::edf_values_to_tempo_types(&entries).unwrap();
    assert_eq!(store.retrieve_tempo_day_state("2024-12-24").unwrap().state(), TempoDayState::Bleu);
    assert_eq!(store.retrieve_tempo_day_state("2024-12-25").unwrap().state(), TempoDayState::Rouge);
    assert!(store.retrieve_tempo_day_state("2024-12-26").is_none());
}

#[test]
fn entries_with_unknown_label_are_left_out() {
    let with = vec![
        entry("2024-12-24", Some("BLUE")),
        entry("2024-12-25", Some("GREEN")),
        entry("2024-12-26", Some("WHITE")),
    ];
    let without = vec![entry("2024-12-24", Some("BLUE")), entry("2024-12-26", Some("WHITE"))];
    let a = EdfTempoStore::edf_values_to_tempo_types(&with).unwrap();
    let b = EdfTempoStore::edf_values_to_tempo_types(&without).unwrap();
    for day in ["2024-12-24", "2024-12-25", "2024-12-26", "2024-12-27"] {
        assert!(a.retrieve_tempo_day_state(day) == b.retrieve_tempo_day_state(day));
    }
    assert!(a.retrieve_tempo_day_state("2024-12-25").is_none());
}

#[test]
fn later_entry_replaces_an_earlier_one() {
    let entries = vec![
        entry("2024-12-25", Some("BLUE")),
        entry("2024-12-26", Some("WHITE")),
        entry("2024-12-25", Some("RED")),
    ];
    let store = EdfTempoStore::edf_values_to_tempo_types(&entries).unwrap();
    assert_eq!(store.retrieve_tempo_day_state("2024-12-25").unwrap().state(), TempoDayState::Rouge);
    assert_eq!(store.retrieve_tempo_day_state("2024-12-26").unwrap().state(), TempoDayState::Blanc);
}

#[test]
fn unknown_label_does_not_remove_an_earlier_entry() {
    let entries = vec![entry("2024-12-25", Some("BLUE")), entry("2024-12-25", Some("GREEN"))];
    let store = EdfTempoStore::edf_values_to_tempo_types(&entries).unwrap();
    assert_eq!(store.retrieve_tempo_day_state("2024-12-25").unwrap().state(), TempoDayState::Bleu);
}

#[test]
fn entries_with_a_missing_label_are_malformed() {
    let entries = vec![entry("2024-12-24", Some("BLUE")), entry("2024-12-25", None)];
    assert_eq!(
        EdfTempoStore::edf_values_to_tempo_types(&entries).unwrap_err(),
        FetchError::MalformedResponse
    );
}

#[test]
fn unknown_label_on_what_is_no_day_is_left_out() {
    let entries = vec![entry("someday", Some("GREEN")), entry("2024-12-25", Some("RED"))];
    let store = EdfTempoStore::edf_values_to_tempo_types(&entries).unwrap();
    assert!(store.retrieve_tempo_day_state("someday").is_none());
    assert!(store.retrieve_tempo_day_state("2024-12-25").is_some());
}

#[test]
fn feed_request_is_the_season_address() {
    let r = EdfTempoStore::feed_request();
    assert_eq!(r.url, "https://www.services-rte.com/cms/open_data/v1/tempo?season=2024-2025");
    assert_eq!(r.user_agent, "curl/7.54.1");
    assert_eq!(r.timeout_secs, 5);
}
