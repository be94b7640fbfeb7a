//! A timezone-aware clock core: local-time snapshots, daylight-saving
//! detection and transition location, per-day gap/overlap geometry, and a
//! rolling per-second ledger that retroactively corrects entries once a
//! repeated local hour is confirmed.
//!
//! Offsets and abbreviations come from the IANA database through `chrono-tz`;
//! everything computed on top of that lookup is verified.

pub mod day_domain;
pub mod engine;
pub mod laws;
pub mod ledger;
pub mod text;
pub mod zone;

pub use day_domain::{generate_hour_boundaries, DayDomain, DstFault, HourBoundary, TerrainParams};
pub use engine::{
    all_timezones, compute_time_data, compute_time_data_at, detect_dst_status,
    find_transition_time, parse_timezone, search_timezones, DstChange, Meridiem, TimeData,
    Validity, Weekday,
};
pub use ledger::{
    BlockGroup, DstBadge, HourChapter, LedgerEntry, LedgerState, OverlapState, TimeRangeFilter,
};
pub use zone::ZoneId;
