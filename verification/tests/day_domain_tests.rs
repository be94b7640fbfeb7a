//! Tests of the civil-day domain: day bounds, positions, and DST faults.

use timecore::day_domain::generate_hour_boundaries;
use timecore::{DayDomain, ZoneId};

// 2024-03-10T15:00:00Z, during the New York spring-forward day
const SPRING_FORWARD_DAY: i64 = 1710082800;

// 2024-11-03T15:00:00Z, during the New York fall-back day
const FALL_BACK_DAY: i64 = 1730646000;

#[test]
fn test_day_domain_normal_day() {
    let tz = ZoneId::utc();
    let now = chrono::Utc::now().timestamp();
    let domain = DayDomain::compute(now, &tz).unwrap();

    // UTC should always have 86400 second days
    assert_eq!(domain.day_length_seconds, 86400);
    assert!(domain.dst_faults.is_empty());
}

#[test]
fn test_spring_forward_day_is_short() {
    let tz = ZoneId::from_name("America/New_York").unwrap();
    let domain = DayDomain::compute(SPRING_FORWARD_DAY, &tz).unwrap();
    assert_eq!(domain.day_length_seconds, 82800);
    // local midnight was 2024-03-10T05:00:00Z
    assert_eq!(domain.midnight_utc, 1710046800);
    assert_eq!(domain.dst_faults.len(), 1);
    let fault = &domain.dst_faults[0];
    assert_eq!(fault.delta_minutes, 60);
    assert!(fault.label_a.is_none());
    assert!(fault.label_b.is_none());
    // the change sits between the 01:00 and 02:00 hourly samples
    assert_eq!(fault.position, 3600 * 1_000_000 / 82800);
    assert_eq!(fault.width, 3600 * 1_000_000 / 82800);
}

#[test]
fn test_gap_covers_half_past_two_local() {
    let tz = ZoneId::from_name("America/New_York").unwrap();
    let domain = DayDomain::compute(SPRING_FORWARD_DAY, &tz).unwrap();
    let fault_position = domain.dst_faults[0].position as u32;
    let fault_width = domain.dst_faults[0].width as u32;
    // halfway into the fault band, where 02:30 local would have been
    let p = fault_position + fault_width / 2;
    assert!(domain.is_in_gap(p));
    assert!(domain.is_in_overlap(p).is_none());
    // well before the fault there is no gap
    assert!(!domain.is_in_gap(fault_position / 2));
}

#[test]
fn test_fall_back_day_is_long() {
    let tz = ZoneId::from_name("America/New_York").unwrap();
    let domain = DayDomain::compute(FALL_BACK_DAY, &tz).unwrap();
    assert_eq!(domain.day_length_seconds, 90000);
    assert_eq!(domain.dst_faults.len(), 1);
    let fault = &domain.dst_faults[0];
    assert_eq!(fault.delta_minutes, -60);
    assert_eq!(fault.label_a.as_deref(), Some("(A)"));
    assert_eq!(fault.label_b.as_deref(), Some("(B)"));
    let p = (fault.position + fault.width / 2) as u32;
    assert!(domain.is_in_overlap(p).is_some());
    assert!(!domain.is_in_gap(p));
}

#[test]
fn test_position_round_trip_within_one_second() {
    let tz = ZoneId::utc();
    let now = chrono::Utc::now().timestamp();
    let domain = DayDomain::compute(now, &tz).unwrap();
    for &x in &[0i64, 1, 59, 3600, 12345, 43200, 86399] {
        let p = domain.ssm_to_position(x);
        let back = domain.position_to_ssm(p);
        assert!((x - back).abs() <= 1, "x={} back={}", x, back);
    }
}

#[test]
fn test_snap_to_minute() {
    let tz = ZoneId::utc();
    let now = chrono::Utc::now().timestamp();
    let domain = DayDomain::compute(now, &tz).unwrap();
    let p = domain.ssm_to_position(3661);
    let snapped = domain.snap_to_minute(p);
    let ssm = domain.position_to_ssm(snapped);
    assert_eq!(ssm - ssm % 60, 3600);
    assert!(ssm < 3661);
}

#[test]
fn test_hour_boundaries_normal_day() {
    let tz = ZoneId::utc();
    let domain = DayDomain::compute(1704141000, &tz).unwrap();
    let boundaries = generate_hour_boundaries(&domain);
    assert_eq!(boundaries.len(), 25);
    assert_eq!(boundaries[0].label, "12 AM");
    assert!(boundaries[0].is_midnight);
    assert!(!boundaries[0].is_next_day);
    assert_eq!(boundaries[15].label, "3 PM");
    assert_eq!(boundaries[9].label, "9 AM");
    assert!(boundaries[24].is_midnight);
    assert!(boundaries[24].is_next_day);
    assert!(boundaries.iter().all(|b| b.suffix.is_none()));
}

#[test]
fn test_hour_boundaries_mark_overlap_passes() {
    let tz = ZoneId::from_name("America/New_York").unwrap();
    let domain = DayDomain::compute(FALL_BACK_DAY, &tz).unwrap();
    let boundaries = generate_hour_boundaries(&domain);
    // hours are only sampled up to 24, even on a 25-hour day
    assert_eq!(boundaries.len(), 25);
    // the boundary inside the repeated hour carries the first-pass suffix
    assert_eq!(boundaries[1].suffix.as_deref(), Some("(A)"));
    assert!(boundaries[2].suffix.is_none());
}

#[test]
fn test_normalized_position_is_clamped() {
    let tz = ZoneId::utc();
    let domain = DayDomain::compute(1704141000, &tz).unwrap();
    assert!(domain.normalized_position <= 1_000_000);
    // 20:30 of a UTC day
    assert_eq!(
        domain.normalized_position as i64,
        73800 * 1_000_000 / 86400
    );
}
