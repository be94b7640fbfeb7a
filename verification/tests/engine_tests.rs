//! Tests of the snapshot builder, DST detector, classifier and zone lookup.

use timecore::{
    compute_time_data, compute_time_data_at, parse_timezone, search_timezones, DstChange,
    Meridiem, TerrainParams, Weekday, ZoneId,
};

// 2024-01-01T20:30:00Z
const NEW_YEAR_EVENING: i64 = 1704141000;

// 2024-11-02T09:00:00Z, the day before the New York fall-back
const BEFORE_FALL_BACK: i64 = 1730538000;

// 2024-11-03T09:00:00Z, a few hours after the New York fall-back
const AFTER_FALL_BACK: i64 = 1730624400;

// 2024-11-03T06:00:00Z, the New York fall-back instant
const FALL_BACK_TRANSITION: i64 = 1730613600;

#[test]
fn test_compute_time_data() {
    let tz = ZoneId::from_name("America/New_York").unwrap();
    let data = compute_time_data(&tz);
    assert!(data.hour12 >= 1 && data.hour12 <= 12);
    assert!(data.minute < 60);
    assert!(data.second < 60);
}

#[test]
fn test_format_utc_offset() {
    let tz = ZoneId::from_name("America/Los_Angeles").unwrap();
    let data = compute_time_data(&tz);
    let offset = data.format_utc_offset();
    assert!(offset.starts_with("UTC"));
}

#[test]
fn test_search_timezones() {
    let results = search_timezones("New_York");
    assert!(!results.is_empty());
    assert!(results.iter().any(|tz| tz.name() == "America/New_York"));
}

#[test]
fn test_search_is_case_insensitive() {
    let results = search_timezones("new_york");
    assert!(results.iter().any(|tz| tz.name() == "America/New_York"));
}

#[test]
fn test_snapshot_utc_new_year_evening() {
    let utc = ZoneId::utc();
    let data = compute_time_data_at(&utc, NEW_YEAR_EVENING, 0);
    assert_eq!(data.year, 2024);
    assert_eq!(data.month, 1);
    assert_eq!(data.day, 1);
    assert_eq!(data.weekday, Weekday::Mon);
    assert_eq!(data.hour24, 20);
    assert_eq!(data.hour12, 8);
    assert_eq!(data.meridiem, Meridiem::PM);
    assert_eq!(data.minute, 30);
    assert_eq!(data.second, 0);
    assert_eq!(data.utc_offset_minutes, 0);
    assert!(!data.is_dst);
    assert_eq!(data.dst_change, DstChange::NoChange);
    assert_eq!(data.tz_abbrev, "UTC");
}

#[test]
fn test_snapshot_formatting() {
    let utc = ZoneId::utc();
    let data = compute_time_data_at(&utc, NEW_YEAR_EVENING, 0);
    assert_eq!(data.format_time(), "08:30:00");
    assert_eq!(data.format_date(), "Mon, January 1, 2024");
    assert_eq!(data.format_utc_offset(), "UTC+00:00");
    assert_eq!(
        data.accessible_description(),
        "It is 8 30 and 0 seconds PM, UTC Time."
    );
}

#[test]
fn test_snapshot_new_york_winter() {
    let tz = ZoneId::from_name("America/New_York").unwrap();
    let data = compute_time_data_at(&tz, NEW_YEAR_EVENING, 0);
    assert_eq!(data.utc_offset_minutes, -300);
    assert_eq!(data.format_utc_offset(), "UTC-05:00");
    assert_eq!(data.tz_abbrev, "EST");
    assert_eq!(data.hour24, 15);
    assert!(!data.is_dst);
}

#[test]
fn test_classifier_upcoming_fall_back() {
    let tz = ZoneId::from_name("America/New_York").unwrap();
    let data = compute_time_data_at(&tz, BEFORE_FALL_BACK, 0);
    assert!(data.is_dst);
    match data.dst_change {
        DstChange::Upcoming {
            instant,
            delta_minutes,
        } => {
            assert_eq!(delta_minutes, -60);
            assert!(instant >= FALL_BACK_TRANSITION);
            assert!(instant <= FALL_BACK_TRANSITION + 60);
        }
        other => panic!("expected an upcoming change, got {:?}", other),
    }
}

#[test]
fn test_classifier_just_occurred_fall_back() {
    let tz = ZoneId::from_name("America/New_York").unwrap();
    let data = compute_time_data_at(&tz, AFTER_FALL_BACK, 0);
    assert!(!data.is_dst);
    match data.dst_change {
        DstChange::JustOccurred {
            instant,
            delta_minutes,
        } => {
            assert_eq!(delta_minutes, -60);
            assert!(instant >= FALL_BACK_TRANSITION);
            assert!(instant <= FALL_BACK_TRANSITION + 60);
        }
        other => panic!("expected a just-occurred change, got {:?}", other),
    }
}

#[test]
fn test_parse_timezone_rejects_unknown_names() {
    let err = parse_timezone("Not/A_Zone").unwrap_err();
    assert_eq!(err, "Invalid timezone: Not/A_Zone");
    assert!(parse_timezone("Europe/London").is_ok());
}

#[test]
fn test_zone_name_round_trip() {
    let tz = ZoneId::from_name("Asia/Tokyo").unwrap();
    assert_eq!(tz.name(), "Asia/Tokyo");
    let copy = tz.duplicate();
    assert_eq!(copy.name(), "Asia/Tokyo");
}

#[test]
fn test_all_timezones_lists_the_database() {
    let zones = timecore::all_timezones();
    assert!(zones.len() > 400);
    assert!(zones.iter().any(|z| z.name() == "UTC"));
    assert!(zones.iter().any(|z| z.name() == "Europe/London"));
}

#[test]
fn test_terrain_params_from_datetime() {
    let utc = ZoneId::utc();
    let params = TerrainParams::from_datetime(&utc, NEW_YEAR_EVENING);
    assert_eq!(params.hour12, 8);
    assert_eq!(params.minute, 30);
    assert_eq!(params.second, 0);
    assert_eq!(params.day_of_year, 1);
}
