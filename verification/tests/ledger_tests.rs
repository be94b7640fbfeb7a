//! Tests of the rolling ledger: deduplication, the cap, gap markers,
//! overlap relabeling, zone changes, and display grouping.

use timecore::{
    compute_time_data_at, DstBadge, LedgerState, OverlapState, TimeRangeFilter, ZoneId,
};

// 2024-03-10T06:59:00Z, one minute before the New York spring forward
const BEFORE_SPRING_FORWARD: i64 = 1710053940;

// 2024-11-03T05:59:00Z, one minute before the New York fall back
const BEFORE_FALL_BACK: i64 = 1730613540;

#[test]
fn test_same_second_stores_one_entry() {
    let tz = ZoneId::utc();
    let mut ledger = LedgerState::new();
    let data = compute_time_data_at(&tz, 1704141000, 0);
    assert!(ledger.update(&data, &tz));
    assert_eq!(ledger.entries.len(), 1);
    let again = compute_time_data_at(&tz, 1704141000, 500_000_000);
    assert!(!ledger.update(&again, &tz));
    assert_eq!(ledger.entries.len(), 1);
}

#[test]
fn test_entries_never_exceed_cap() {
    let tz = ZoneId::utc();
    let mut ledger = LedgerState::new();
    ledger.set_time_range(TimeRangeFilter::Minutes5);
    let start: i64 = 1704141000;
    for i in 0..400 {
        let data = compute_time_data_at(&tz, start + i, 0);
        ledger.update(&data, &tz);
        assert!(ledger.entries.len() <= ledger.max_entries());
    }
    assert_eq!(ledger.entries.len(), 300);
    // newest first: the front entry is the latest tick
    assert_eq!(ledger.entries[0].instant_utc, start + 399);
}

#[test]
fn test_shrinking_time_range_prunes() {
    let tz = ZoneId::utc();
    let mut ledger = LedgerState::new();
    let start: i64 = 1704141000;
    for i in 0..350 {
        let data = compute_time_data_at(&tz, start + i, 0);
        ledger.update(&data, &tz);
    }
    assert_eq!(ledger.entries.len(), 350);
    ledger.set_time_range(TimeRangeFilter::Minutes5);
    assert_eq!(ledger.entries.len(), 300);
    assert_eq!(ledger.entries[0].instant_utc, start + 349);
}

#[test]
fn test_gap_marker_on_spring_forward() {
    let tz = ZoneId::from_name("America/New_York").unwrap();
    let mut ledger = LedgerState::new();
    for &t in &[
        BEFORE_SPRING_FORWARD,
        BEFORE_SPRING_FORWARD + 30,
        BEFORE_SPRING_FORWARD + 60,
    ] {
        let data = compute_time_data_at(&tz, t, 0);
        ledger.update(&data, &tz);
    }
    // newest first: the 03:00:00 EDT entry, then the gap marker
    assert_eq!(ledger.entries.len(), 4);
    let markers: Vec<_> = ledger
        .entries
        .iter()
        .filter(|e| matches!(e.dst_badge, DstBadge::GapMarker { .. }))
        .collect();
    assert_eq!(markers.len(), 1);
    match &ledger.entries[1].dst_badge {
        DstBadge::GapMarker { from, to } => {
            assert_eq!(from, "02:00");
            assert_eq!(to, "03:00");
        }
        other => panic!("expected a gap marker, got {:?}", other),
    }
    assert_eq!(ledger.entries[1].local_timestamp, "02:00 \u{2192} 03:00");
    assert_eq!(ledger.entries[0].local_timestamp, "03:00:00 AM");
    // no normal entry carries a skipped 02:xx wall-clock time
    assert!(ledger
        .entries
        .iter()
        .filter(|e| !matches!(e.dst_badge, DstBadge::GapMarker { .. }))
        .all(|e| e.chapter_id != 2));
}

#[test]
fn test_overlap_relabeling_on_fall_back() {
    let tz = ZoneId::from_name("America/New_York").unwrap();
    let mut ledger = LedgerState::new();
    // two ticks in the first pass of the repeated hour (01:59 EDT)
    for &t in &[BEFORE_FALL_BACK, BEFORE_FALL_BACK + 30] {
        let data = compute_time_data_at(&tz, t, 0);
        ledger.update(&data, &tz);
    }
    // before the repeat is observed the entries carry the plain DST badge
    assert!(ledger
        .entries
        .iter()
        .all(|e| e.dst_badge == DstBadge::Active));
    // the repeat tick: 01:00:00 EST, offset drops from -240 to -300
    let data = compute_time_data_at(&tz, BEFORE_FALL_BACK + 60, 0);
    ledger.update(&data, &tz);
    assert_eq!(ledger.entries.len(), 3);
    // after the repeat, everything before the onset is first-pass
    assert_eq!(ledger.entries[2].dst_badge, DstBadge::OverlapPass1);
    assert_eq!(ledger.entries[1].dst_badge, DstBadge::OverlapPass1);
    // and the repeat itself is second-pass
    assert_eq!(ledger.entries[0].dst_badge, DstBadge::OverlapPass2);
    assert_eq!(ledger.entries[0].local_timestamp, "01:00:00 AM");
    // a later tick in the repeated hour stays second-pass
    let data = compute_time_data_at(&tz, BEFORE_FALL_BACK + 90, 0);
    ledger.update(&data, &tz);
    assert_eq!(ledger.entries[0].dst_badge, DstBadge::OverlapPass2);
    assert!(ledger.overlap_state.in_overlap);
    // once the local hour moves past the overlap hour with no change in
    // sight, the tracker returns to rest: a tick at 02:00 EST the next day
    let next_day = BEFORE_FALL_BACK + 60 + 90000 + 3600;
    let data = compute_time_data_at(&tz, next_day, 0);
    ledger.update(&data, &tz);
    assert_eq!(ledger.overlap_state, OverlapState::default());
    assert_eq!(ledger.entries[0].dst_badge, DstBadge::NoBadge);
}

#[test]
fn test_recalculate_for_tz_preserves_markers() {
    let ny = ZoneId::from_name("America/New_York").unwrap();
    let mut ledger = LedgerState::new();
    for &t in &[
        BEFORE_SPRING_FORWARD,
        BEFORE_SPRING_FORWARD + 30,
        BEFORE_SPRING_FORWARD + 60,
    ] {
        let data = compute_time_data_at(&ny, t, 0);
        ledger.update(&data, &ny);
    }
    let london = ZoneId::from_name("Europe/London").unwrap();
    ledger.recalculate_for_tz(&london);
    // display fields follow the new zone: 07:00 UTC is 07:00 in London
    assert_eq!(ledger.entries[0].local_timestamp, "07:00:00 AM");
    assert_eq!(ledger.entries[0].chapter_id, 7);
    assert_eq!(ledger.entries[0].offset_str, "UTC+00:00");
    // the structural gap marker survives the zone change
    assert!(matches!(
        ledger.entries[1].dst_badge,
        DstBadge::GapMarker { .. }
    ));
}

#[test]
fn test_grouping_by_minute_blocks() {
    let tz = ZoneId::utc();
    let mut ledger = LedgerState::new();
    // 20:29:58, 20:29:59, 20:30:00, 20:30:01
    let start: i64 = 1704140998;
    for i in 0..4 {
        let data = compute_time_data_at(&tz, start + i, 0);
        ledger.update(&data, &tz);
    }
    let groups = ledger.get_grouped_entries();
    assert_eq!(groups.len(), 2);
    assert_eq!(groups[0].minute, 30);
    assert_eq!(groups[0].entries.len(), 2);
    assert_eq!(groups[1].minute, 29);
    assert_eq!(groups[1].entries.len(), 2);
    assert_eq!(groups[0].header_text(), "BLOCK 30 \u{2502} 2 entries");
}

#[test]
fn test_block_collapse_toggling() {
    let mut ledger = LedgerState::new();
    assert!(!ledger.is_block_collapsed(20, 30));
    ledger.toggle_block_collapse(20, 30);
    assert!(ledger.is_block_collapsed(20, 30));
    assert!(!ledger.is_block_collapsed(20, 31));
    ledger.toggle_block_collapse(20, 30);
    assert!(!ledger.is_block_collapsed(20, 30));
    ledger.toggle_chapter_collapse(20);
    assert!(ledger.is_chapter_collapsed(20));
    ledger.expand_all_chapters();
    assert!(!ledger.is_chapter_collapsed(20));
}

#[test]
fn test_collapse_all_blocks_with_entries() {
    let tz = ZoneId::utc();
    let mut ledger = LedgerState::new();
    let data = compute_time_data_at(&tz, 1704141000, 0);
    ledger.update(&data, &tz);
    ledger.collapse_all();
    assert!(ledger.is_block_collapsed(20, 30));
    assert!(!ledger.is_block_collapsed(20, 31));
    ledger.expand_all();
    assert!(!ledger.is_block_collapsed(20, 30));
    ledger.collapse_all_chapters();
    assert!(ledger.is_chapter_collapsed(20));
}

#[test]
fn test_chapter_grouping() {
    let tz = ZoneId::utc();
    let mut ledger = LedgerState::new();
    // 20:59:59, 21:00:00, 21:00:01
    let start: i64 = 1704142799;
    for i in 0..3 {
        let data = compute_time_data_at(&tz, start + i, 0);
        ledger.update(&data, &tz);
    }
    let chapters = ledger.get_chapter_grouped_entries();
    assert_eq!(chapters.len(), 2);
    assert_eq!(chapters[0].hour, 21);
    assert_eq!(chapters[0].blocks.len(), 1);
    assert_eq!(chapters[0].blocks[0].entries.len(), 2);
    assert_eq!(chapters[1].hour, 20);
    assert_eq!(chapters[1].blocks[0].minute, 59);
    assert_eq!(
        chapters[0].header_text(),
        "CHAPTER 21 \u{2502} 1 blocks \u{2502} 2 entries"
    );
    assert_eq!(chapters[0].hour_12(), (9, "PM"));
    assert_eq!(chapters[1].hour_12(), (8, "PM"));
}

#[test]
fn test_time_range_filters() {
    assert_eq!(TimeRangeFilter::Minutes5.as_seconds(), 300);
    assert_eq!(TimeRangeFilter::Minutes10.as_seconds(), 600);
    assert_eq!(TimeRangeFilter::Minutes30.as_seconds(), 1800);
    assert_eq!(TimeRangeFilter::Minutes60.as_seconds(), 3600);
    assert_eq!(TimeRangeFilter::Minutes5.label(), "5 min");
    assert_eq!(TimeRangeFilter::default(), TimeRangeFilter::Minutes10);
    assert_eq!(TimeRangeFilter::all().len(), 4);
}
