//! The rolling ledger: a bounded, newest-first log of wall-clock seconds
//! with a fall-back overlap state machine that retroactively relabels
//! already-stored entries once a repeated local hour is confirmed.

use std::collections::HashSet;

use vstd::prelude::*;
use vstd::string::StringExecFns;

use crate::engine::{
    compute_time_data_at, hour12_from, hour24_of, is_dst_spec, minute_of, second_of,
    snapshot_wf, time_text, utc_offset_text, meridiem_text, DstChange, Meridiem, TimeData,
};
use crate::text::two_digits;
use crate::zone::{instant_in_range, zone_offset_minutes, ZoneId};

verus! {

/// Time range filter options for the rolling window.
#[derive(Debug, Clone, Copy, PartialEq, Eq, Structural)]
pub enum TimeRangeFilter {
    Minutes5,
    Minutes10,
    Minutes30,
    Minutes60,
}

/// The window size, in seconds, of a time range filter.
pub open spec fn range_seconds(tr: TimeRangeFilter) -> int {
    match tr {
        TimeRangeFilter::Minutes5 => 300,
        TimeRangeFilter::Minutes10 => 600,
        TimeRangeFilter::Minutes30 => 1800,
        TimeRangeFilter::Minutes60 => 3600,
    }
}

/// The display label of a time range filter.
pub open spec fn range_label(tr: TimeRangeFilter) -> Seq<char> {
    match tr {
        TimeRangeFilter::Minutes5 => "5 min"@,
        TimeRangeFilter::Minutes10 => "10 min"@,
        TimeRangeFilter::Minutes30 => "30 min"@,
        TimeRangeFilter::Minutes60 => "60 min"@,
    }
}

impl TimeRangeFilter {
    /// The window size in seconds.
    pub fn as_seconds(&self) -> (r: usize)
        ensures
            r == range_seconds(*self),
    {
        match self {
            TimeRangeFilter::Minutes5 => 5 * 60,
            TimeRangeFilter::Minutes10 => 10 * 60,
            TimeRangeFilter::Minutes30 => 30 * 60,
            TimeRangeFilter::Minutes60 => 60 * 60,
        }
    }

    /// The display label.
    pub fn label(&self) -> (r: &'static str)
        ensures
            r@ == range_label(*self),
    {
        match self {
            TimeRangeFilter::Minutes5 => "5 min",
            TimeRangeFilter::Minutes10 => "10 min",
            TimeRangeFilter::Minutes30 => "30 min",
            TimeRangeFilter::Minutes60 => "60 min",
        }
    }

    /// All filters, from shortest to longest window.
    pub fn all() -> (r: Vec<TimeRangeFilter>)
        ensures
            r@ == seq![
                TimeRangeFilter::Minutes5,
                TimeRangeFilter::Minutes10,
                TimeRangeFilter::Minutes30,
                TimeRangeFilter::Minutes60,
            ],
    {
        let mut v: Vec<TimeRangeFilter> = Vec::new();
        v.push(TimeRangeFilter::Minutes5);
        v.push(TimeRangeFilter::Minutes10);
        v.push(TimeRangeFilter::Minutes30);
        v.push(TimeRangeFilter::Minutes60);
        proof {
            assert(v@ =~= seq![
                TimeRangeFilter::Minutes5,
                TimeRangeFilter::Minutes10,
                TimeRangeFilter::Minutes30,
                TimeRangeFilter::Minutes60,
            ]);
        }
        v
    }
}

impl Default for TimeRangeFilter {
    /// The default window is ten minutes.
    fn default() -> (r: Self)
        ensures
            r == TimeRangeFilter::Minutes10,
    {
        TimeRangeFilter::Minutes10
    }
}

/// DST badge of a ledger entry.
#[derive(Debug, Clone, PartialEq, Eq)]
pub enum DstBadge {
    /// No DST-related badge.
    NoBadge,
    /// DST is currently active.
    Active,
    /// A gap marker (spring forward): the skipped local range.
    GapMarker { from: String, to: String },
    /// First pass through an overlapped hour (fall back).
    OverlapPass1,
    /// Second pass through an overlapped hour (fall back).
    OverlapPass2,
}

/// Badge equality up to string contents.
pub open spec fn same_badge(a: DstBadge, b: DstBadge) -> bool {
    match (a, b) {
        (DstBadge::GapMarker { from: f1, to: t1 }, DstBadge::GapMarker { from: f2, to: t2 }) => f1@
            == f2@ && t1@ == t2@,
        _ => a == b,
    }
}

/// A single ledger entry representing one wall-clock second.
#[derive(Debug, Clone)]
pub struct LedgerEntry {
    /// The UTC instant (seconds since the epoch) this entry represents.
    pub instant_utc: i64,
    /// Formatted 12-hour time string (e.g., "12:34:56 PM").
    pub local_timestamp: String,
    /// Current minute (0-59) — the "block" this entry belongs to.
    pub block_id: u32,
    /// Current hour (0-23) — the "chapter" this entry belongs to.
    pub chapter_id: u32,
    /// UTC offset display string (e.g., "UTC-08:00").
    pub offset_str: String,
    /// DST badge information.
    pub dst_badge: DstBadge,
    /// The second within the minute (0-59).
    pub second: u32,
    /// UTC offset in minutes (kept raw for overlap detection).
    pub utc_offset_minutes: i32,
}

/// Entry equality up to string contents.
pub open spec fn same_entry(a: LedgerEntry, b: LedgerEntry) -> bool {
    &&& a.instant_utc == b.instant_utc
    &&& a.local_timestamp@ == b.local_timestamp@
    &&& a.block_id == b.block_id
    &&& a.chapter_id == b.chapter_id
    &&& a.offset_str@ == b.offset_str@
    &&& same_badge(a.dst_badge, b.dst_badge)
    &&& a.second == b.second
    &&& a.utc_offset_minutes == b.utc_offset_minutes
}

/// The badge a fresh entry gets: overlap passes win over the plain
/// DST-active badge.
pub open spec fn entry_badge(in_overlap: bool, is_first_pass: bool, is_dst: bool) -> DstBadge {
    if in_overlap {
        if is_first_pass {
            DstBadge::OverlapPass1
        } else {
            DstBadge::OverlapPass2
        }
    } else if is_dst {
        DstBadge::Active
    } else {
        DstBadge::NoBadge
    }
}

/// The "hh:mm:ss AM" timestamp text of a local time.
pub open spec fn timestamp_text(h12: int, m: int, s: int, mer: Meridiem) -> Seq<char> {
    time_text(h12, m, s) + seq![' '] + meridiem_text(mer)
}

/// The meridiem of a 0..24 hour.
pub open spec fn meridiem_of_hour(h: int) -> Meridiem {
    if h < 12 {
        Meridiem::AM
    } else {
        Meridiem::PM
    }
}

/// The display fields of `e` are those of the local time of `t` in the zone
/// named `name`, and its badge is `badge`.
pub open spec fn entry_matches(e: LedgerEntry, name: Seq<char>, t: int, badge: DstBadge) -> bool {
    &&& e.instant_utc == t
    &&& e.local_timestamp@ == timestamp_text(
        hour12_from(hour24_of(name, t)),
        minute_of(name, t),
        second_of(name, t),
        meridiem_of_hour(hour24_of(name, t)),
    )
    &&& e.block_id == minute_of(name, t)
    &&& e.chapter_id == hour24_of(name, t)
    &&& e.offset_str@ == utc_offset_text(zone_offset_minutes(name, t))
    &&& same_badge(e.dst_badge, badge)
    &&& e.second == second_of(name, t)
    &&& e.utc_offset_minutes == zone_offset_minutes(name, t)
}

/// The fields of a gap-marker entry for the skipped range `from` .. `to`.
pub open spec fn gap_marker_matches(e: LedgerEntry, t: int, from: Seq<char>, to: Seq<char>) -> bool {
    &&& e.instant_utc == t
    &&& e.local_timestamp@ == from + " \u{2192} "@ + to
    &&& e.block_id == 0
    &&& e.chapter_id == 0
    &&& e.offset_str@ == Seq::<char>::empty()
    &&& (e.dst_badge matches DstBadge::GapMarker { from: f, to: t2 } && f@ == from && t2@ == to)
    &&& e.second == 0
    &&& e.utc_offset_minutes == 0
}

/// Whether a badge marks a structural entry (gap marker or overlap pass).
pub open spec fn is_marker_badge(b: DstBadge) -> bool {
    b matches DstBadge::GapMarker { .. } || b == DstBadge::OverlapPass1 || b
        == DstBadge::OverlapPass2
}

/// An entry after retroactive relabeling for a confirmed fall-back in local
/// hour `hour` at pre-fall-back offset `pre_off`: entries of that hour and
/// offset become `OverlapPass1`, gap markers and everything else stay.
pub open spec fn relabel_entry(e: LedgerEntry, hour: int, pre_off: int) -> LedgerEntry {
    if e.chapter_id == hour && e.utc_offset_minutes == pre_off && !(e.dst_badge
        matches DstBadge::GapMarker { .. }) {
        LedgerEntry { dst_badge: DstBadge::OverlapPass1, ..e }
    } else {
        e
    }
}

/// An owned copy of a string, by contents.
fn clone_string(s: &String) -> (r: String)
    ensures
        r@ == s@,
{
    String::from_str(s.as_str())
}

impl LedgerEntry {
    /// An owned copy of this entry (equal up to string contents).
    pub fn dup(&self) -> (r: LedgerEntry)
        ensures
            same_entry(*self, r),
    {
        let dst_badge = match &self.dst_badge {
            DstBadge::NoBadge => DstBadge::NoBadge,
            DstBadge::Active => DstBadge::Active,
            DstBadge::GapMarker { from, to } => DstBadge::GapMarker {
                from: clone_string(from),
                to: clone_string(to),
            },
            DstBadge::OverlapPass1 => DstBadge::OverlapPass1,
            DstBadge::OverlapPass2 => DstBadge::OverlapPass2,
        };
        LedgerEntry {
            instant_utc: self.instant_utc,
            local_timestamp: clone_string(&self.local_timestamp),
            block_id: self.block_id,
            chapter_id: self.chapter_id,
            offset_str: clone_string(&self.offset_str),
            dst_badge,
            second: self.second,
            utc_offset_minutes: self.utc_offset_minutes,
        }
    }

    /// Create a ledger entry for the wall-clock second of `instant_utc` in
    /// `zone`, badged for the current overlap state and DST flag.
    pub fn from_instant(
        instant_utc: i64,
        zone: &ZoneId,
        is_dst: bool,
        in_overlap: bool,
        is_first_pass: bool,
    ) -> (r: LedgerEntry)
        requires
            instant_in_range(instant_utc as int),
        ensures
            entry_matches(r, zone@, instant_utc as int, entry_badge(in_overlap, is_first_pass, is_dst)),
    {
        let time_data = compute_time_data_at(zone, instant_utc, 0);
        let mut local_timestamp = time_data.format_time();
        local_timestamp.append(" ");
        local_timestamp.append(time_data.meridiem.text());
        let dst_badge = if in_overlap {
            if is_first_pass {
                DstBadge::OverlapPass1
            } else {
                DstBadge::OverlapPass2
            }
        } else if is_dst {
            DstBadge::Active
        } else {
            DstBadge::NoBadge
        };
        proof {
            reveal_strlit(" ");
            assert(local_timestamp@ =~= timestamp_text(
                hour12_from(hour24_of(zone@, instant_utc as int)),
                minute_of(zone@, instant_utc as int),
                second_of(zone@, instant_utc as int),
                meridiem_of_hour(hour24_of(zone@, instant_utc as int)),
            ));
        }
        LedgerEntry {
            instant_utc,
            local_timestamp,
            block_id: time_data.minute,
            chapter_id: time_data.hour24,
            offset_str: time_data.format_utc_offset(),
            dst_badge,
            second: time_data.second,
            utc_offset_minutes: time_data.utc_offset_minutes,
        }
    }

    /// Create a gap-marker entry for a DST spring forward, recording the
    /// skipped wall-clock range.
    pub fn gap_marker(instant_utc: i64, from: String, to: String) -> (r: LedgerEntry)
        ensures
            gap_marker_matches(r, instant_utc as int, from@, to@),
    {
        let mut local_timestamp = clone_string(&from);
        local_timestamp.append(" \u{2192} ");
        local_timestamp.append(to.as_str());
        let empty = String::from_str("");
        proof {
            reveal_strlit("");
            assert(empty@ =~= Seq::<char>::empty());
            assert(local_timestamp@ =~= from@ + " \u{2192} "@ + to@);
        }
        LedgerEntry {
            instant_utc,
            local_timestamp,
            block_id: 0,
            chapter_id: 0,
            offset_str: empty,
            dst_badge: DstBadge::GapMarker { from, to },
            second: 0,
            utc_offset_minutes: 0,
        }
    }

    /// Whether this entry is a structural marker (gap or overlap pass).
    pub fn is_marker(&self) -> (r: bool)
        ensures
            r == is_marker_badge(self.dst_badge),
    {
        match self.dst_badge {
            DstBadge::GapMarker { .. } => true,
            DstBadge::OverlapPass1 => true,
            DstBadge::OverlapPass2 => true,
            _ => false,
        }
    }

    /// Recompute the display fields for a new timezone; structural markers
    /// keep their badge, other entries get the new zone's DST badge. The
    /// recorded second is part of the original observation and stays.
    pub fn recalculate_for_tz(&mut self, zone: &ZoneId)
        requires
            instant_in_range(old(self).instant_utc as int),
        ensures
            entry_recalced(*old(self), *final(self), zone@),
    {
        let time_data = compute_time_data_at(zone, self.instant_utc, 0);
        let mut local_timestamp = time_data.format_time();
        local_timestamp.append(" ");
        local_timestamp.append(time_data.meridiem.text());
        proof {
            reveal_strlit(" ");
            assert(local_timestamp@ =~= timestamp_text(
                hour12_from(hour24_of(zone@, old(self).instant_utc as int)),
                minute_of(zone@, old(self).instant_utc as int),
                second_of(zone@, old(self).instant_utc as int),
                meridiem_of_hour(hour24_of(zone@, old(self).instant_utc as int)),
            ));
        }
        self.local_timestamp = local_timestamp;
        self.block_id = time_data.minute;
        self.chapter_id = time_data.hour24;
        self.offset_str = time_data.format_utc_offset();
        self.utc_offset_minutes = time_data.utc_offset_minutes;
        let keep = self.is_marker();
        if !keep {
            if time_data.is_dst {
                self.dst_badge = DstBadge::Active;
            } else {
                self.dst_badge = DstBadge::NoBadge;
            }
        }
    }
}

/// Relation between an entry and its recomputation for the zone named
/// `name`: display fields follow the new zone, the instant and observed
/// second stay, and structural badges survive.
pub open spec fn entry_recalced(old_e: LedgerEntry, new_e: LedgerEntry, name: Seq<char>) -> bool {
    let t = old_e.instant_utc as int;
    &&& new_e.instant_utc == old_e.instant_utc
    &&& new_e.local_timestamp@ == timestamp_text(
        hour12_from(hour24_of(name, t)),
        minute_of(name, t),
        second_of(name, t),
        meridiem_of_hour(hour24_of(name, t)),
    )
    &&& new_e.block_id == minute_of(name, t)
    &&& new_e.chapter_id == hour24_of(name, t)
    &&& new_e.offset_str@ == utc_offset_text(zone_offset_minutes(name, t))
    &&& new_e.utc_offset_minutes == zone_offset_minutes(name, t)
    &&& new_e.second == old_e.second
    &&& new_e.dst_badge == (if is_marker_badge(old_e.dst_badge) {
        old_e.dst_badge
    } else if is_dst_spec(name, t) {
        DstBadge::Active
    } else {
        DstBadge::NoBadge
    })
}

/// Transient state for tracking a DST fall-back overlap.
#[derive(Debug, Clone, PartialEq, Eq)]
pub struct OverlapState {
    /// Whether a fall-back overlap period is being tracked.
    pub in_overlap: bool,
    /// The local hour being repeated.
    pub overlap_hour: Option<u32>,
    /// Whether this is the first pass (DST time) or the second (standard).
    pub is_first_pass: bool,
    /// The UTC offset before the fall-back (the DST offset).
    pub pre_fallback_offset: Option<i32>,
}

/// The overlap tracker at rest.
pub open spec fn idle_overlap_state() -> OverlapState {
    OverlapState {
        in_overlap: false,
        overlap_hour: Option::None,
        is_first_pass: false,
        pre_fallback_offset: Option::None,
    }
}

impl Default for OverlapState {
    /// The tracker starts at rest.
    fn default() -> (r: Self)
        ensures
            r == idle_overlap_state(),
    {
        OverlapState {
            in_overlap: false,
            overlap_hour: Option::None,
            is_first_pass: false,
            pre_fallback_offset: Option::None,
        }
    }
}

/// The overlap tracker after reacting to the tick's classification alone:
/// an upcoming fall-back together with an observed offset change opens the
/// first pass; a just-occurred fall-back confirms the second pass; once the
/// hour moves on past a finished overlap, the tracker returns to rest.
pub open spec fn overlap_step_change(
    st: OverlapState,
    last_offset: Option<i32>,
    td: TimeData,
) -> OverlapState {
    match td.dst_change {
        DstChange::JustOccurred { delta_minutes, .. } => {
            if delta_minutes < 0 && st.in_overlap && st.is_first_pass {
                OverlapState { is_first_pass: false, ..st }
            } else {
                st
            }
        },
        DstChange::Upcoming { delta_minutes, .. } => {
            if delta_minutes < 0 && (last_offset matches Some(lo) && td.utc_offset_minutes != lo) {
                OverlapState {
                    in_overlap: true,
                    is_first_pass: true,
                    overlap_hour: Some(td.hour24),
                    pre_fallback_offset: last_offset,
                }
            } else {
                st
            }
        },
        DstChange::NoChange => {
            if st.in_overlap && (st.overlap_hour matches Some(oh) && td.hour24 != oh)
                && !st.is_first_pass {
                idle_overlap_state()
            } else {
                st
            }
        },
    }
}

/// A tick-over-tick offset decrease that the tracker was not already
/// following: the repeat has just become knowable, so stored entries must be
/// relabeled.
pub open spec fn relabel_fires(st: OverlapState, last_offset: Option<i32>, td: TimeData) -> bool {
    let a = overlap_step_change(st, last_offset, td);
    last_offset matches Some(lo) && td.utc_offset_minutes < lo && !a.in_overlap
}

/// The overlap tracker after a full tick: the classification step, then the
/// offset-decrease detection, which opens a second pass directly.
pub open spec fn overlap_step(st: OverlapState, last_offset: Option<i32>, td: TimeData) -> OverlapState {
    let a = overlap_step_change(st, last_offset, td);
    if relabel_fires(st, last_offset, td) {
        OverlapState {
            in_overlap: true,
            is_first_pass: false,
            overlap_hour: Some(td.hour24),
            pre_fallback_offset: last_offset,
        }
    } else {
        a
    }
}

/// A spring forward was classified as just occurred on this tick.
pub open spec fn spring_forward_just(td: TimeData) -> bool {
    td.dst_change matches DstChange::JustOccurred { delta_minutes, .. } && delta_minutes > 0
}

/// A gap marker is emitted on this tick: the minute rolled over and a
/// spring forward just occurred.
pub open spec fn gap_fires(last_minute: Option<u32>, td: TimeData) -> bool {
    (last_minute matches Some(lm) && td.minute != lm) && spring_forward_just(td)
}

/// The local hour skipped by a spring forward observed at local hour `h`.
pub open spec fn skipped_hour_of(h: int) -> int {
    if h > 0 {
        h - 1
    } else {
        23
    }
}

/// The "hh:00" text of a gap boundary.
pub open spec fn gap_text(h: int) -> Seq<char> {
    two_digits(h) + ":00"@
}

/// The full tick relation of the ledger: how one `update` call with
/// snapshot `td` for the zone named `name` takes the state `pre` to `post`,
/// reporting `stored`. A repeated wall-clock second changes nothing; a new
/// one steps the overlap tracker, relabels stored entries when a fall-back
/// repeat has just become known, puts the new entry (and, on a minute
/// boundary right after a spring forward, a gap marker behind it) at the
/// front, records the tick's second, minute and offset, and prunes the log
/// to its cap. Collapse state and the window never change on a tick.
pub open spec fn ledger_tick(
    pre: LedgerState,
    post: LedgerState,
    td: TimeData,
    name: Seq<char>,
    stored: bool,
) -> bool {
    &&& stored == !(pre.last_second matches Some(s) && s == td.second)
    &&& (!stored ==> post == pre)
    &&& post.collapsed_blocks@ == pre.collapsed_blocks@
    &&& post.collapsed_chapters@ == pre.collapsed_chapters@
    &&& post.time_range == pre.time_range
    &&& (stored ==> ({
        let st1 = overlap_step(pre.overlap_state, pre.last_offset, td);
        let relabel = relabel_fires(pre.overlap_state, pre.last_offset, td);
        let base = if relabel {
            pre.entries@.map_values(
                |e: LedgerEntry|
                    relabel_entry(e, td.hour24 as int, pre.last_offset.unwrap() as int),
            )
        } else {
            pre.entries@
        };
        let gap = gap_fires(pre.last_minute, td);
        let head: int = if gap {
            2
        } else {
            1
        };
        let max = range_seconds(pre.time_range);
        let kept: int = if base.len() + head <= max {
            base.len() + head
        } else {
            max
        };
        &&& post.last_second == Some(td.second)
        &&& post.last_minute == Some(td.minute)
        &&& post.last_offset == Some(td.utc_offset_minutes)
        &&& post.overlap_state == st1
        &&& post.entries@.len() == kept
        &&& entry_matches(
            post.entries@[0],
            name,
            td.instant_secs as int,
            entry_badge(st1.in_overlap, st1.is_first_pass, td.is_dst),
        )
        &&& (gap ==> gap_marker_matches(
            post.entries@[1],
            td.instant_secs as int,
            gap_text(skipped_hour_of(td.hour24 as int)),
            gap_text(td.hour24 as int),
        ))
        &&& forall|i: int| head <= i < kept ==> post.entries@[i] == base[i - head]
    }))
}

/// The key under which a minute block is collapsed.
pub open spec fn block_key(hour: int, minute: int) -> int {
    hour * 4294967296 + minute
}

/// State for the rolling ledger: the bounded newest-first log, collapse
/// state for its hour/minute display groups, the previous tick's wall-clock
/// fields, and the overlap tracker.
#[derive(Debug)]
pub struct LedgerState {
    /// Rolling window of entries (newest at the front).
    pub entries: Vec<LedgerEntry>,
    /// Collapsed minute blocks, keyed by `block_key`.
    pub collapsed_blocks: HashSet<u64>,
    /// Collapsed hour chapters, keyed by the hour.
    pub collapsed_chapters: HashSet<u64>,
    /// Current time range filter (the eviction cap).
    pub time_range: TimeRangeFilter,
    /// Last recorded second (to detect new seconds).
    pub last_second: Option<u32>,
    /// Last recorded minute (to detect minute boundaries).
    pub last_minute: Option<u32>,
    /// Last recorded UTC offset (for overlap detection).
    pub last_offset: Option<i32>,
    /// Fall-back overlap tracking state.
    pub overlap_state: OverlapState,
}

/// The ledger's invariant: the log respects its cap and holds computable
/// instants.
pub open spec fn ledger_wf(st: LedgerState) -> bool {
    &&& st.entries@.len() <= range_seconds(st.time_range)
    &&& forall|i: int|
        0 <= i < st.entries@.len() ==> instant_in_range(
            (#[trigger] st.entries@[i]).instant_utc as int,
        )
}

impl Default for LedgerState {
    /// A fresh, empty ledger with the default ten-minute window.
    fn default() -> (r: Self)
        ensures
            r.entries@ == Seq::<LedgerEntry>::empty(),
            r.collapsed_blocks@ == Set::<u64>::empty(),
            r.collapsed_chapters@ == Set::<u64>::empty(),
            r.time_range == TimeRangeFilter::Minutes10,
            r.last_second is None,
            r.last_minute is None,
            r.last_offset is None,
            r.overlap_state == idle_overlap_state(),
            ledger_wf(r),
    {
        LedgerState {
            entries: Vec::new(),
            collapsed_blocks: HashSet::new(),
            collapsed_chapters: HashSet::new(),
            time_range: TimeRangeFilter::Minutes10,
            last_second: Option::None,
            last_minute: Option::None,
            last_offset: Option::None,
            overlap_state: OverlapState::default(),
        }
    }
}

impl LedgerState {
    /// A fresh, empty ledger.
    pub fn new() -> (r: Self)
        ensures
            r.entries@ == Seq::<LedgerEntry>::empty(),
            r.collapsed_blocks@ == Set::<u64>::empty(),
            r.collapsed_chapters@ == Set::<u64>::empty(),
            r.time_range == TimeRangeFilter::Minutes10,
            r.last_second is None,
            r.last_minute is None,
            r.last_offset is None,
            r.overlap_state == idle_overlap_state(),
            ledger_wf(r),
    {
        Self::default()
    }

    /// The maximum number of entries under the current time range.
    pub fn max_entries(&self) -> (r: usize)
        ensures
            r == range_seconds(self.time_range),
    {
        self.time_range.as_seconds()
    }

    /// Update the ledger for one tick.
    ///
    /// Returns whether a new entry was stored: a tick whose wall-clock
    /// second equals the previous tick's is skipped whole, so one wall
    /// second yields exactly one entry. Otherwise the overlap tracker steps,
    /// stored entries are relabeled when a fall-back repeat has just become
    /// known, the new entry (and, on a minute boundary right after a spring
    /// forward, a gap marker behind it) goes to the front, and the log is
    /// pruned to its cap.
    #[verifier::rlimit(60)]
    pub fn update(&mut self, time_data: &TimeData, zone: &ZoneId) -> (r: bool)
        requires
            ledger_wf(*old(self)),
            snapshot_wf(zone@, *time_data),
        ensures
            ledger_wf(*final(self)),
            ledger_tick(*old(self), *final(self), *time_data, zone@, r),
    {
        let current_second = time_data.second;
        let same = match self.last_second {
            Some(s) => s == current_second,
            _ => false,
        };
        if same {
            return false;
        }
        self.last_second = Some(current_second);

        self.check_for_dst_transitions(time_data);

        let entry = LedgerEntry::from_instant(
            time_data.instant_secs,
            zone,
            time_data.is_dst,
            self.overlap_state.in_overlap,
            self.overlap_state.is_first_pass,
        );

        let minute_changed = match self.last_minute {
            Some(lm) => time_data.minute != lm,
            _ => false,
        };
        if minute_changed {
            self.check_for_dst_gap(time_data);
        }
        self.last_minute = Some(time_data.minute);
        self.last_offset = Some(time_data.utc_offset_minutes);

        self.entries.insert(0, entry);
        self.prune_entries();
        true
    }

    /// Step the overlap tracker for this tick, relabeling stored entries if
    /// an untracked fall-back repeat is detected.
    fn check_for_dst_transitions(&mut self, time_data: &TimeData)
        ensures
            final(self).overlap_state == overlap_step(
                old(self).overlap_state,
                old(self).last_offset,
                *time_data,
            ),
            final(self).entries@ == (if relabel_fires(
                old(self).overlap_state,
                old(self).last_offset,
                *time_data,
            ) {
                old(self).entries@.map_values(
                    |e: LedgerEntry|
                        relabel_entry(
                            e,
                            time_data.hour24 as int,
                            old(self).last_offset.unwrap() as int,
                        ),
                )
            } else {
                old(self).entries@
            }),
            final(self).collapsed_blocks@ == old(self).collapsed_blocks@,
            final(self).collapsed_chapters@ == old(self).collapsed_chapters@,
            final(self).time_range == old(self).time_range,
            final(self).last_second == old(self).last_second,
            final(self).last_minute == old(self).last_minute,
            final(self).last_offset == old(self).last_offset,
    {
        match &time_data.dst_change {
            DstChange::JustOccurred { delta_minutes, .. } => {
                if *delta_minutes < 0 {
                    if self.overlap_state.in_overlap && self.overlap_state.is_first_pass {
                        self.overlap_state.is_first_pass = false;
                    }
                }
            },
            DstChange::Upcoming { delta_minutes, .. } => {
                if *delta_minutes < 0 {
                    if let Some(lo) = self.last_offset {
                        if time_data.utc_offset_minutes != lo {
                            self.overlap_state.in_overlap = true;
                            self.overlap_state.is_first_pass = true;
                            self.overlap_state.overlap_hour = Some(time_data.hour24);
                            self.overlap_state.pre_fallback_offset = Some(lo);
                        }
                    }
                }
            },
            DstChange::NoChange => {
                if self.overlap_state.in_overlap {
                    if let Some(oh) = self.overlap_state.overlap_hour {
                        if time_data.hour24 != oh && !self.overlap_state.is_first_pass {
                            self.overlap_state = OverlapState::default();
                        }
                    }
                }
            },
        }

        if let Some(lo) = self.last_offset {
            if time_data.utc_offset_minutes < lo && !self.overlap_state.in_overlap {
                self.overlap_state.in_overlap = true;
                self.overlap_state.is_first_pass = false;
                self.overlap_state.overlap_hour = Some(time_data.hour24);
                self.overlap_state.pre_fallback_offset = Some(lo);
                self.mark_overlap_pass1(time_data.hour24, lo);
            }
        }
    }

    /// Retroactively relabel stored entries of the repeated hour at the
    /// pre-fall-back offset as first-pass entries; gap markers and entries
    /// already relabeled are untouched.
    fn mark_overlap_pass1(&mut self, hour: u32, dst_offset: i32)
        ensures
            final(self).entries@ == old(self).entries@.map_values(
                |e: LedgerEntry| relabel_entry(e, hour as int, dst_offset as int),
            ),
            final(self).collapsed_blocks@ == old(self).collapsed_blocks@,
            final(self).collapsed_chapters@ == old(self).collapsed_chapters@,
            final(self).time_range == old(self).time_range,
            final(self).last_second == old(self).last_second,
            final(self).last_minute == old(self).last_minute,
            final(self).last_offset == old(self).last_offset,
            final(self).overlap_state == old(self).overlap_state,
    {
        let n = self.entries.len();
        let mut i: usize = 0;
        while i < n
            invariant
                n == self.entries@.len(),
                i <= n,
                self.entries@.len() == old(self).entries@.len(),
                forall|j: int|
                    0 <= j < i ==> self.entries@[j] == relabel_entry(
                        #[trigger] old(self).entries@[j],
                        hour as int,
                        dst_offset as int,
                    ),
                forall|j: int| i <= j < n ==> self.entries@[j] == old(self).entries@[j],
                self.collapsed_blocks@ == old(self).collapsed_blocks@,
                self.collapsed_chapters@ == old(self).collapsed_chapters@,
                self.time_range == old(self).time_range,
                self.last_second == old(self).last_second,
                self.last_minute == old(self).last_minute,
                self.last_offset == old(self).last_offset,
                self.overlap_state == old(self).overlap_state,
            decreases n - i,
        {
            let relabel = {
                let e = &self.entries[i];
                e.chapter_id == hour && e.utc_offset_minutes == dst_offset && !matches!(
                    e.dst_badge,
                    DstBadge::GapMarker { .. },
                )
            };
            if relabel {
                let e = &mut self.entries[i];
                e.dst_badge = DstBadge::OverlapPass1;
            }
            i = i + 1;
        }
        proof {
            assert(final(self).entries@ =~= old(self).entries@.map_values(
                |e: LedgerEntry| relabel_entry(e, hour as int, dst_offset as int),
            ));
        }
    }

    /// On a spring forward just observed, put a gap marker for the skipped
    /// hour at the front of the log.
    fn check_for_dst_gap(&mut self, time_data: &TimeData)
        requires
            time_data.hour24 < 100,
            old(self).entries@.len() < usize::MAX,
        ensures
            final(self).entries@ == (if spring_forward_just(*time_data) {
                seq![final(self).entries@[0]] + old(self).entries@
            } else {
                old(self).entries@
            }),
            spring_forward_just(*time_data) ==> gap_marker_matches(
                final(self).entries@[0],
                time_data.instant_secs as int,
                gap_text(skipped_hour_of(time_data.hour24 as int)),
                gap_text(time_data.hour24 as int),
            ),
            final(self).collapsed_blocks@ == old(self).collapsed_blocks@,
            final(self).collapsed_chapters@ == old(self).collapsed_chapters@,
            final(self).time_range == old(self).time_range,
            final(self).last_second == old(self).last_second,
            final(self).last_minute == old(self).last_minute,
            final(self).last_offset == old(self).last_offset,
            final(self).overlap_state == old(self).overlap_state,
    {
        let fires = match &time_data.dst_change {
            DstChange::JustOccurred { delta_minutes, .. } => *delta_minutes > 0,
            _ => false,
        };
        if fires {
            let skipped_hour = if time_data.hour24 > 0 {
                time_data.hour24 - 1
            } else {
                23
            };
            let from = gap_text_exec(skipped_hour);
            let to = gap_text_exec(time_data.hour24);
            let gap_entry = LedgerEntry::gap_marker(time_data.instant_secs, from, to);
            self.entries.insert(0, gap_entry);
            proof {
                assert(final(self).entries@ =~= seq![final(self).entries@[0]] + old(self).entries@);
            }
        }
    }

    /// Evict entries from the oldest end until the log fits its cap.
    fn prune_entries(&mut self)
        ensures
            final(self).entries@ == old(self).entries@.take(
                if old(self).entries@.len() <= range_seconds(old(self).time_range) {
                    old(self).entries@.len() as int
                } else {
                    range_seconds(old(self).time_range)
                },
            ),
            final(self).collapsed_blocks@ == old(self).collapsed_blocks@,
            final(self).collapsed_chapters@ == old(self).collapsed_chapters@,
            final(self).time_range == old(self).time_range,
            final(self).last_second == old(self).last_second,
            final(self).last_minute == old(self).last_minute,
            final(self).last_offset == old(self).last_offset,
            final(self).overlap_state == old(self).overlap_state,
    {
        let max = self.max_entries();
        while self.entries.len() > max
            invariant
                max == range_seconds(self.time_range),
                self.entries@.len() <= old(self).entries@.len(),
                self.entries@.len() >= (if old(self).entries@.len() <= max {
                    old(self).entries@.len() as int
                } else {
                    max as int
                }),
                self.entries@ == old(self).entries@.take(self.entries@.len() as int),
                self.collapsed_blocks@ == old(self).collapsed_blocks@,
                self.collapsed_chapters@ == old(self).collapsed_chapters@,
                self.time_range == old(self).time_range,
                self.last_second == old(self).last_second,
                self.last_minute == old(self).last_minute,
                self.last_offset == old(self).last_offset,
                self.overlap_state == old(self).overlap_state,
            decreases self.entries@.len(),
        {
            self.entries.pop();
            proof {
                assert(self.entries@ =~= old(self).entries@.take(self.entries@.len() as int));
            }
        }
        proof {
            assert(final(self).entries@ =~= old(self).entries@.take(
                if old(self).entries@.len() <= range_seconds(old(self).time_range) {
                    old(self).entries@.len() as int
                } else {
                    range_seconds(old(self).time_range)
                },
            ));
        }
    }

    /// Recompute every stored entry's display fields for a new timezone;
    /// structural markers survive unchanged.
    pub fn recalculate_for_tz(&mut self, zone: &ZoneId)
        requires
            ledger_wf(*old(self)),
        ensures
            ledger_wf(*final(self)),
            final(self).entries@.len() == old(self).entries@.len(),
            forall|i: int|
                0 <= i < old(self).entries@.len() ==> entry_recalced(
                    #[trigger] old(self).entries@[i],
                    final(self).entries@[i],
                    zone@,
                ),
            final(self).collapsed_blocks@ == old(self).collapsed_blocks@,
            final(self).collapsed_chapters@ == old(self).collapsed_chapters@,
            final(self).time_range == old(self).time_range,
            final(self).last_second == old(self).last_second,
            final(self).last_minute == old(self).last_minute,
            final(self).last_offset == old(self).last_offset,
            final(self).overlap_state == old(self).overlap_state,
    {
        let n = self.entries.len();
        let mut i: usize = 0;
        while i < n
            invariant
                n == self.entries@.len(),
                i <= n,
                self.entries@.len() == old(self).entries@.len(),
                forall|j: int|
                    0 <= j < i ==> entry_recalced(
                        #[trigger] old(self).entries@[j],
                        self.entries@[j],
                        zone@,
                    ),
                forall|j: int| i <= j < n ==> self.entries@[j] == old(self).entries@[j],
                forall|j: int|
                    0 <= j < n ==> instant_in_range(
                        (#[trigger] self.entries@[j]).instant_utc as int,
                    ),
                self.entries@.len() <= range_seconds(self.time_range),
                self.collapsed_blocks@ == old(self).collapsed_blocks@,
                self.collapsed_chapters@ == old(self).collapsed_chapters@,
                self.time_range == old(self).time_range,
                self.last_second == old(self).last_second,
                self.last_minute == old(self).last_minute,
                self.last_offset == old(self).last_offset,
                self.overlap_state == old(self).overlap_state,
            decreases n - i,
        {
            let e = &mut self.entries[i];
            e.recalculate_for_tz(zone);
            i = i + 1;
        }
    }

    /// Set the time range filter, pruning the log to the new cap.
    pub fn set_time_range(&mut self, range: TimeRangeFilter)
        requires
            ledger_wf(*old(self)),
        ensures
            ledger_wf(*final(self)),
            final(self).time_range == range,
            final(self).entries@ == old(self).entries@.take(
                if old(self).entries@.len() <= range_seconds(range) {
                    old(self).entries@.len() as int
                } else {
                    range_seconds(range)
                },
            ),
            final(self).collapsed_blocks@ == old(self).collapsed_blocks@,
            final(self).collapsed_chapters@ == old(self).collapsed_chapters@,
            final(self).last_second == old(self).last_second,
            final(self).last_minute == old(self).last_minute,
            final(self).last_offset == old(self).last_offset,
            final(self).overlap_state == old(self).overlap_state,
    {
        self.time_range = range;
        self.prune_entries();
        proof {
            let k: int = if old(self).entries@.len() <= range_seconds(range) {
                old(self).entries@.len() as int
            } else {
                range_seconds(range)
            };
            assert(final(self).entries@ == old(self).entries@.take(k));
            assert forall|i: int| 0 <= i < final(self).entries@.len() implies instant_in_range(
                (#[trigger] final(self).entries@[i]).instant_utc as int,
            ) by {
                assert(old(self).entries@.take(k)[i] == old(self).entries@[i]);
            }
        }
    }

    /// Toggle collapse state for a minute block.
    pub fn toggle_block_collapse(&mut self, hour: u32, minute: u32)
        ensures
            final(self).collapsed_blocks@ == (if old(self).collapsed_blocks@.contains(
                block_key_exec_spec(hour, minute),
            ) {
                old(self).collapsed_blocks@.remove(block_key_exec_spec(hour, minute))
            } else {
                old(self).collapsed_blocks@.insert(block_key_exec_spec(hour, minute))
            }),
            final(self).entries@ == old(self).entries@,
            final(self).collapsed_chapters@ == old(self).collapsed_chapters@,
            final(self).time_range == old(self).time_range,
            final(self).last_second == old(self).last_second,
            final(self).last_minute == old(self).last_minute,
            final(self).last_offset == old(self).last_offset,
            final(self).overlap_state == old(self).overlap_state,
    {
        let key = block_key_exec(hour, minute);
        if self.collapsed_blocks.contains(&key) {
            self.collapsed_blocks.remove(&key);
        } else {
            self.collapsed_blocks.insert(key);
        }
    }

    /// Whether a minute block is collapsed.
    pub fn is_block_collapsed(&self, hour: u32, minute: u32) -> (r: bool)
        ensures
            r == self.collapsed_blocks@.contains(block_key_exec_spec(hour, minute)),
    {
        let key = block_key_exec(hour, minute);
        self.collapsed_blocks.contains(&key)
    }

    /// Toggle collapse state for an hour chapter.
    pub fn toggle_chapter_collapse(&mut self, hour: u32)
        ensures
            final(self).collapsed_chapters@ == (if old(self).collapsed_chapters@.contains(
                hour as u64,
            ) {
                old(self).collapsed_chapters@.remove(hour as u64)
            } else {
                old(self).collapsed_chapters@.insert(hour as u64)
            }),
            final(self).entries@ == old(self).entries@,
            final(self).collapsed_blocks@ == old(self).collapsed_blocks@,
            final(self).time_range == old(self).time_range,
            final(self).last_second == old(self).last_second,
            final(self).last_minute == old(self).last_minute,
            final(self).last_offset == old(self).last_offset,
            final(self).overlap_state == old(self).overlap_state,
    {
        let key = hour as u64;
        if self.collapsed_chapters.contains(&key) {
            self.collapsed_chapters.remove(&key);
        } else {
            self.collapsed_chapters.insert(key);
        }
    }

    /// Whether an hour chapter is collapsed.
    pub fn is_chapter_collapsed(&self, hour: u32) -> (r: bool)
        ensures
            r == self.collapsed_chapters@.contains(hour as u64),
    {
        let key = hour as u64;
        self.collapsed_chapters.contains(&key)
    }

    /// Collapse every minute block that has an entry.
    pub fn collapse_all(&mut self)
        ensures
            forall|k: u64|
                final(self).collapsed_blocks@.contains(k) <==> old(self).collapsed_blocks@.contains(
                    k,
                ) || exists|i: int|
                    0 <= i < old(self).entries@.len() && k == block_key_exec_spec(
                        (#[trigger] old(self).entries@[i]).chapter_id,
                        old(self).entries@[i].block_id,
                    ),
            final(self).entries@ == old(self).entries@,
            final(self).collapsed_chapters@ == old(self).collapsed_chapters@,
            final(self).time_range == old(self).time_range,
            final(self).last_second == old(self).last_second,
            final(self).last_minute == old(self).last_minute,
            final(self).last_offset == old(self).last_offset,
            final(self).overlap_state == old(self).overlap_state,
    {
        let n = self.entries.len();
        let mut i: usize = 0;
        while i < n
            invariant
                n == self.entries@.len(),
                i <= n,
                forall|k: u64|
                    self.collapsed_blocks@.contains(k) <==> old(self).collapsed_blocks@.contains(k)
                        || exists|j: int|
                        0 <= j < i && k == block_key_exec_spec(
                            (#[trigger] self.entries@[j]).chapter_id,
                            self.entries@[j].block_id,
                        ),
                self.entries@ == old(self).entries@,
                self.collapsed_chapters@ == old(self).collapsed_chapters@,
                self.time_range == old(self).time_range,
                self.last_second == old(self).last_second,
                self.last_minute == old(self).last_minute,
                self.last_offset == old(self).last_offset,
                self.overlap_state == old(self).overlap_state,
            decreases n - i,
        {
            let hour = self.entries[i].chapter_id;
            let minute = self.entries[i].block_id;
            let key = block_key_exec(hour, minute);
            self.collapsed_blocks.insert(key);
            i = i + 1;
        }
    }

    /// Collapse every hour chapter that has an entry.
    pub fn collapse_all_chapters(&mut self)
        ensures
            forall|k: u64|
                final(self).collapsed_chapters@.contains(k) <==> old(
                    self,
                ).collapsed_chapters@.contains(k) || exists|i: int|
                    0 <= i < old(self).entries@.len() && k == (
                    #[trigger] old(self).entries@[i]).chapter_id as u64,
            final(self).entries@ == old(self).entries@,
            final(self).collapsed_blocks@ == old(self).collapsed_blocks@,
            final(self).time_range == old(self).time_range,
            final(self).last_second == old(self).last_second,
            final(self).last_minute == old(self).last_minute,
            final(self).last_offset == old(self).last_offset,
            final(self).overlap_state == old(self).overlap_state,
    {
        let n = self.entries.len();
        let mut i: usize = 0;
        while i < n
            invariant
                n == self.entries@.len(),
                i <= n,
                forall|k: u64|
                    self.collapsed_chapters@.contains(k) <==> old(
                        self,
                    ).collapsed_chapters@.contains(k) || exists|j: int|
                        0 <= j < i && k == (#[trigger] self.entries@[j]).chapter_id as u64,
                self.entries@ == old(self).entries@,
                self.collapsed_blocks@ == old(self).collapsed_blocks@,
                self.time_range == old(self).time_range,
                self.last_second == old(self).last_second,
                self.last_minute == old(self).last_minute,
                self.last_offset == old(self).last_offset,
                self.overlap_state == old(self).overlap_state,
            decreases n - i,
        {
            let key = self.entries[i].chapter_id as u64;
            self.collapsed_chapters.insert(key);
            i = i + 1;
        }
    }

    /// Expand all minute blocks.
    pub fn expand_all(&mut self)
        ensures
            final(self).collapsed_blocks@ == Set::<u64>::empty(),
            final(self).entries@ == old(self).entries@,
            final(self).collapsed_chapters@ == old(self).collapsed_chapters@,
            final(self).time_range == old(self).time_range,
            final(self).last_second == old(self).last_second,
            final(self).last_minute == old(self).last_minute,
            final(self).last_offset == old(self).last_offset,
            final(self).overlap_state == old(self).overlap_state,
    {
        self.collapsed_blocks.clear();
    }

    /// Expand all hour chapters.
    pub fn expand_all_chapters(&mut self)
        ensures
            final(self).collapsed_chapters@ == Set::<u64>::empty(),
            final(self).entries@ == old(self).entries@,
            final(self).collapsed_blocks@ == old(self).collapsed_blocks@,
            final(self).time_range == old(self).time_range,
            final(self).last_second == old(self).last_second,
            final(self).last_minute == old(self).last_minute,
            final(self).last_offset == old(self).last_offset,
            final(self).overlap_state == old(self).overlap_state,
    {
        self.collapsed_chapters.clear();
    }
}

/// A group of entries for display: one minute block.
#[derive(Debug)]
pub struct BlockGroup {
    pub hour: u32,
    pub minute: u32,
    pub collapsed: bool,
    pub entries: Vec<LedgerEntry>,
}

/// An hour chapter containing multiple minute blocks.
#[derive(Debug)]
pub struct HourChapter {
    pub hour: u32,
    pub collapsed: bool,
    pub blocks: Vec<BlockGroup>,
}

/// The entries of a run of block groups, in order.
pub open spec fn flatten_groups(gs: Seq<BlockGroup>) -> Seq<LedgerEntry>
    decreases gs.len(),
{
    if gs.len() == 0 {
        Seq::empty()
    } else {
        flatten_groups(gs.drop_last()) + gs.last().entries@
    }
}

/// A display group agrees with the ledger: it is nonempty, all its entries
/// carry its hour and minute, and its collapsed flag is the ledger's.
pub open spec fn group_wf(g: BlockGroup, st: LedgerState) -> bool {
    &&& g.entries@.len() >= 1
    &&& forall|i: int|
        0 <= i < g.entries@.len() ==> (#[trigger] g.entries@[i]).chapter_id == g.hour
            && g.entries@[i].block_id == g.minute
    &&& g.collapsed == st.collapsed_blocks@.contains(block_key_exec_spec(g.hour, g.minute))
}

/// Appending to the last group appends to the flattening.
proof fn lemma_flatten_update_last(gs: Seq<BlockGroup>, gs2: Seq<BlockGroup>, e: LedgerEntry)
    requires
        gs.len() > 0,
        gs2.len() == gs.len(),
        gs2.last().entries@ == gs.last().entries@.push(e),
        gs2.last().hour == gs.last().hour,
        gs2.last().minute == gs.last().minute,
        gs2.last().collapsed == gs.last().collapsed,
        forall|j: int| 0 <= j < gs.len() - 1 ==> gs2[j] == gs[j],
    ensures
        flatten_groups(gs2) == flatten_groups(gs).push(e),
{
    assert(gs2.drop_last() =~= gs.drop_last());
    assert(flatten_groups(gs2) =~= flatten_groups(gs).push(e));
}

/// Appending a fresh group appends its entries to the flattening.
proof fn lemma_flatten_push(gs: Seq<BlockGroup>, g: BlockGroup)
    ensures
        flatten_groups(gs.push(g)) == flatten_groups(gs) + g.entries@,
{
    assert(gs.push(g).drop_last() =~= gs);
    assert(gs.push(g).last() == g);
}

impl LedgerState {
    /// The entries grouped into consecutive (hour, minute) blocks for a flat
    /// display view, newest first: the groups flatten back to the entries
    /// (up to string copies), each group is one run of a single block, and
    /// adjacent groups belong to different blocks.
    pub fn get_grouped_entries(&self) -> (r: Vec<BlockGroup>)
        ensures
            flatten_groups(r@).len() == self.entries@.len(),
            forall|i: int|
                0 <= i < self.entries@.len() ==> same_entry(
                    #[trigger] flatten_groups(r@)[i],
                    self.entries@[i],
                ),
            forall|j: int| 0 <= j < r@.len() ==> group_wf(#[trigger] r@[j], *self),
            forall|j: int|
                0 <= j < r@.len() - 1 ==> !((#[trigger] r@[j]).hour == r@[j + 1].hour && r@[j].minute
                    == r@[j + 1].minute),
    {
        let mut groups: Vec<BlockGroup> = Vec::new();
        let n = self.entries.len();
        let mut i: usize = 0;
        while i < n
            invariant
                n == self.entries@.len(),
                i <= n,
                flatten_groups(groups@).len() == i,
                forall|k: int|
                    0 <= k < i ==> same_entry(
                        #[trigger] flatten_groups(groups@)[k],
                        self.entries@[k],
                    ),
                forall|j: int| 0 <= j < groups@.len() ==> group_wf(#[trigger] groups@[j], *self),
                forall|j: int|
                    0 <= j < groups@.len() - 1 ==> !((#[trigger] groups@[j]).hour == groups@[j
                        + 1].hour && groups@[j].minute == groups@[j + 1].minute),
                i > 0 ==> groups@.len() > 0 && groups@.last().hour == self.entries@[i - 1].chapter_id
                    && groups@.last().minute == self.entries@[i - 1].block_id,
                i == 0 ==> groups@.len() == 0,
            decreases n - i,
        {
            let hour = self.entries[i].chapter_id;
            let minute = self.entries[i].block_id;
            let d = self.entries[i].dup();
            let glen = groups.len();
            let matched = glen > 0 && {
                let lastg = &groups[glen - 1];
                lastg.hour == hour && lastg.minute == minute
            };
            let ghost before = groups@;
            if matched {
                let li = glen - 1;
                let g = &mut groups[li];
                g.entries.push(d);
                proof {
                    lemma_flatten_update_last(before, groups@, d);
                }
            } else {
                let collapsed = self.is_block_collapsed(hour, minute);
                let mut ents: Vec<LedgerEntry> = Vec::new();
                ents.push(d);
                let g = BlockGroup { hour, minute, collapsed, entries: ents };
                groups.push(g);
                proof {
                    lemma_flatten_push(before, groups@.last());
                    assert(flatten_groups(groups@) =~= flatten_groups(before).push(d));
                }
            }
            i = i + 1;
        }
        groups
    }
}

impl BlockGroup {
    /// The block header text, naming the minute and the entry count.
    pub fn header_text(&self) -> (r: String)
        requires
            self.minute < 100,
        ensures
            r@ == block_header_text(self.minute as int, self.entries@.len() as int),
    {
        let mut s = String::from_str("BLOCK ");
        crate::text::push_two_digits(&mut s, self.minute);
        s.append(" \u{2502} ");
        crate::text::push_u64(&mut s, self.entries.len() as u64);
        s.append(" entries");
        proof {
            assert(s@ =~= block_header_text(self.minute as int, self.entries@.len() as int));
        }
        s
    }
}

/// The "BLOCK mm │ n entries" header of a minute block.
pub open spec fn block_header_text(minute: int, count: int) -> Seq<char> {
    "BLOCK "@ + two_digits(minute) + " \u{2502} "@ + crate::text::dec_digits(count) + " entries"@
}

/// The "CHAPTER hh │ b blocks │ n entries" header of an hour chapter.
pub open spec fn chapter_header_text(hour: int, blocks: int, count: int) -> Seq<char> {
    "CHAPTER "@ + two_digits(hour) + " \u{2502} "@ + crate::text::dec_digits(blocks)
        + " blocks \u{2502} "@ + crate::text::dec_digits(count) + " entries"@
}

/// The total entry count of a chapter's blocks.
pub open spec fn chapter_entry_count(blocks: Seq<BlockGroup>) -> int
    decreases blocks.len(),
{
    if blocks.len() == 0 {
        0
    } else {
        chapter_entry_count(blocks.drop_last()) + blocks.last().entries@.len()
    }
}

/// A chapter's entry count is never negative.
proof fn lemma_chapter_count_nonneg(s: Seq<BlockGroup>)
    ensures
        chapter_entry_count(s) >= 0,
    decreases s.len(),
{
    if s.len() > 0 {
        lemma_chapter_count_nonneg(s.drop_last());
    }
}

/// A prefix of a chapter's blocks never counts more entries than the whole.
proof fn lemma_chapter_count_take(s: Seq<BlockGroup>, k: int)
    requires
        0 <= k <= s.len(),
    ensures
        chapter_entry_count(s.take(k)) <= chapter_entry_count(s),
        chapter_entry_count(s.take(k)) >= 0,
    decreases s.len() - k,
{
    lemma_chapter_count_nonneg(s.take(k));
    if k == s.len() {
        assert(s.take(k) =~= s);
    } else {
        lemma_chapter_count_take(s, k + 1);
        assert(s.take(k + 1).drop_last() =~= s.take(k));
        assert(s.take(k + 1).last() == s[k]);
    }
}

impl HourChapter {
    /// The chapter header text, naming the hour and the block and entry
    /// counts.
    pub fn header_text(&self) -> (r: String)
        requires
            self.hour < 100,
            chapter_entry_count(self.blocks@) <= usize::MAX,
        ensures
            r@ == chapter_header_text(
                self.hour as int,
                self.blocks@.len() as int,
                chapter_entry_count(self.blocks@),
            ),
    {
        let mut total: usize = 0;
        let m = self.blocks.len();
        let mut j: usize = 0;
        while j < m
            invariant
                m == self.blocks@.len(),
                j <= m,
                total == chapter_entry_count(self.blocks@.take(j as int)),
                chapter_entry_count(self.blocks@) <= usize::MAX,
            decreases m - j,
        {
            proof {
                assert(self.blocks@.take(j + 1).drop_last() =~= self.blocks@.take(j as int));
                assert(self.blocks@.take(j + 1).last() == self.blocks@[j as int]);
                lemma_chapter_count_take(self.blocks@, j + 1);
            }
            total = total + self.blocks[j].entries.len();
            j = j + 1;
        }
        proof {
            assert(self.blocks@.take(m as int) =~= self.blocks@);
        }
        let mut s = String::from_str("CHAPTER ");
        crate::text::push_two_digits(&mut s, self.hour);
        s.append(" \u{2502} ");
        crate::text::push_u64(&mut s, self.blocks.len() as u64);
        s.append(" blocks \u{2502} ");
        crate::text::push_u64(&mut s, total as u64);
        s.append(" entries");
        proof {
            assert(s@ =~= chapter_header_text(
                self.hour as int,
                self.blocks@.len() as int,
                chapter_entry_count(self.blocks@),
            ));
        }
        s
    }

    /// The hour in 12-hour form with its meridiem text.
    pub fn hour_12(&self) -> (r: (u32, &'static str))
        requires
            self.hour < 24,
        ensures
            r.0 == hour12_from(self.hour as int),
            r.1@ == meridiem_text(meridiem_of_hour(self.hour as int)),
    {
        match self.hour {
            0 => (12, "AM"),
            h if h <= 11 => (h, "AM"),
            12 => (12, "PM"),
            h => (h - 12, "PM"),
        }
    }
}

/// The predicate selecting the entries of the block `(hour, minute)`.
pub open spec fn block_pred(hour: u32, minute: u32) -> spec_fn(LedgerEntry) -> bool {
    |e: LedgerEntry| e.chapter_id == hour && e.block_id == minute
}

/// The block holds exactly the entries of `s` carrying its hour and minute,
/// in their original order (up to string copies).
pub open spec fn block_is_filter(b: BlockGroup, s: Seq<LedgerEntry>) -> bool {
    let f = s.filter(block_pred(b.hour, b.minute));
    &&& b.entries@.len() == f.len()
    &&& forall|i: int| 0 <= i < f.len() ==> same_entry(#[trigger] b.entries@[i], f[i])
}

/// An hour chapter agrees with the ledger: its collapsed flags are the
/// ledger's, its blocks carry its hour and distinct minutes, and each block
/// filters the given entries by its key.
pub open spec fn chapter_wf(c: HourChapter, st: LedgerState, s: Seq<LedgerEntry>) -> bool {
    &&& c.collapsed == st.collapsed_chapters@.contains(c.hour as u64)
    &&& c.blocks@.len() >= 1
    &&& forall|k: int|
        0 <= k < c.blocks@.len() ==> (#[trigger] c.blocks@[k]).hour == c.hour
            && c.blocks@[k].entries@.len() >= 1 && c.blocks@[k].collapsed
            == st.collapsed_blocks@.contains(
            block_key_exec_spec(c.blocks@[k].hour, c.blocks@[k].minute),
        ) && block_is_filter(c.blocks@[k], s)
    &&& forall|k1: int, k2: int|
        0 <= k1 < k2 < c.blocks@.len() ==> (#[trigger] c.blocks@[k1]).minute != (
        #[trigger] c.blocks@[k2]).minute
}

/// Some chapter carries the entry's hour and, within it, some block its
/// minute.
pub open spec fn entry_located(chapters: Seq<HourChapter>, e: LedgerEntry) -> bool {
    exists|j: int, k: int|
        0 <= j < chapters.len() && 0 <= k < (#[trigger] chapters[j]).blocks@.len() && chapters[j].hour
            == e.chapter_id && (#[trigger] chapters[j].blocks@[k]).minute == e.block_id
}

/// Appending an entry to a sequence extends its filtered view exactly when
/// the predicate accepts the entry.
proof fn lemma_filter_push_entry(s: Seq<LedgerEntry>, e: LedgerEntry, pred: spec_fn(LedgerEntry) -> bool)
    ensures
        s.push(e).filter(pred) == (if pred(e) {
            s.filter(pred).push(e)
        } else {
            s.filter(pred)
        }),
{
    reveal(Seq::filter);
    assert(s.push(e).drop_last() =~= s);
    assert(s.push(e).last() == e);
    if pred(e) {
        assert(s.push(e).filter(pred) =~= s.filter(pred).push(e));
    } else {
        assert(s.push(e).filter(pred) =~= s.filter(pred));
    }
}

/// The index of the chapter with the given hour, if one exists.
fn find_chapter(chapters: &Vec<HourChapter>, hour: u32) -> (r: Option<usize>)
    ensures
        r matches Some(j) ==> j < chapters@.len() && chapters@[j as int].hour == hour,
        r is None ==> forall|j: int| 0 <= j < chapters@.len() ==> (#[trigger] chapters@[j]).hour != hour,
{
    let n = chapters.len();
    let mut j: usize = 0;
    while j < n
        invariant
            n == chapters@.len(),
            j <= n,
            forall|k: int| 0 <= k < j ==> (#[trigger] chapters@[k]).hour != hour,
        decreases n - j,
    {
        if chapters[j].hour == hour {
            return Some(j);
        }
        j = j + 1;
    }
    Option::None
}

/// The index of the block with the given minute, if one exists.
fn find_block(blocks: &Vec<BlockGroup>, minute: u32) -> (r: Option<usize>)
    ensures
        r matches Some(k) ==> k < blocks@.len() && blocks@[k as int].minute == minute,
        r is None ==> forall|k: int| 0 <= k < blocks@.len() ==> (#[trigger] blocks@[k]).minute != minute,
{
    let n = blocks.len();
    let mut k: usize = 0;
    while k < n
        invariant
            n == blocks@.len(),
            k <= n,
            forall|i: int| 0 <= i < k ==> (#[trigger] blocks@[i]).minute != minute,
        decreases n - k,
    {
        if blocks[k].minute == minute {
            return Some(k);
        }
        k = k + 1;
    }
    Option::None
}

impl LedgerState {
    /// The entries grouped into hour chapters containing minute blocks, for
    /// the hierarchical display view: chapters carry distinct hours and
    /// blocks distinct minutes, every block holds exactly the ledger's
    /// entries of its hour and minute in order (up to string copies), and
    /// every entry's hour and minute appear.
    pub fn get_chapter_grouped_entries(&self) -> (r: Vec<HourChapter>)
        ensures
            forall|j: int| 0 <= j < r@.len() ==> chapter_wf(#[trigger] r@[j], *self, self.entries@),
            forall|j1: int, j2: int|
                0 <= j1 < j2 < r@.len() ==> (#[trigger] r@[j1]).hour != (#[trigger] r@[j2]).hour,
            forall|i: int|
                0 <= i < self.entries@.len() ==> entry_located(r@, #[trigger] self.entries@[i]),
    {
        let mut chapters: Vec<HourChapter> = Vec::new();
        let n = self.entries.len();
        let mut i: usize = 0;
        while i < n
            invariant
                n == self.entries@.len(),
                i <= n,
                forall|j: int|
                    0 <= j < chapters@.len() ==> chapter_wf(
                        #[trigger] chapters@[j],
                        *self,
                        self.entries@.take(i as int),
                    ),
                forall|j1: int, j2: int|
                    0 <= j1 < j2 < chapters@.len() ==> (#[trigger] chapters@[j1]).hour != (
                    #[trigger] chapters@[j2]).hour,
                forall|i2: int|
                    0 <= i2 < i ==> entry_located(chapters@, #[trigger] self.entries@[i2]),
            decreases n - i,
        {
            let hour = self.entries[i].chapter_id;
            let minute = self.entries[i].block_id;
            let d = self.entries[i].dup();
            let ghost entry = self.entries@[i as int];
            let ghost pr = self.entries@.take(i as int);
            let ghost before = chapters@;
            proof {
                assert(self.entries@.take(i + 1) =~= pr.push(entry));
            }
            match find_chapter(&chapters, hour) {
                Some(j) => {
                    match find_block(&chapters[j].blocks, minute) {
                        Some(k) => {
                            let c = &mut chapters[j];
                            let b = &mut c.blocks[k];
                            b.entries.push(d);
                            proof {
                                lemma_chapter_grouping_extend_existing(
                                    before,
                                    chapters@,
                                    *self,
                                    pr,
                                    entry,
                                    d,
                                    j as int,
                                    k as int,
                                );
                            }
                            let ghost cur = chapters@;
                            proof {
                                assert forall|i2: int| 0 <= i2 <= i as int implies entry_located(
                                    cur,
                                    #[trigger] self.entries@[i2],
                                ) by {
                                    if i2 == i as int {
                                        assert(cur[j as int].hour == entry.chapter_id);
                                        assert(cur[j as int].blocks@[k as int].minute == entry.block_id);
                                    } else {
                                        assert(entry_located(before, self.entries@[i2]));
                                        let (x, y) = choose|j: int, k: int|
                                            0 <= j < before.len() && 0 <= k < (
                                            #[trigger] before[j]).blocks@.len() && before[j].hour
                                                == self.entries@[i2].chapter_id && (
                                            #[trigger] before[j].blocks@[k]).minute == self.entries@[i2].block_id;
                                        assert(cur[x].hour == before[x].hour);
                                        assert(cur[x].blocks@[y].minute == before[x].blocks@[y].minute);
                                    }
                                }
                                assert forall|x1: int, x2: int| 0 <= x1 < x2 < cur.len() implies (
                                #[trigger] cur[x1]).hour != (#[trigger] cur[x2]).hour by {
                                    if x2 < before.len() {
                                        assert(before[x1].hour != before[x2].hour);
                                    }
                                }
                            }

                        },
                        _ => {
                            let collapsed = self.is_block_collapsed(hour, minute);
                            let mut ents: Vec<LedgerEntry> = Vec::new();
                            ents.push(d);
                            let b = BlockGroup { hour, minute, collapsed, entries: ents };
                            let c = &mut chapters[j];
                            c.blocks.push(b);
                            proof {
                                lemma_chapter_grouping_new_block(
                                    before,
                                    chapters@,
                                    *self,
                                    pr,
                                    entry,
                                    d,
                                    j as int,
                                );
                            }
                            let ghost cur = chapters@;
                            proof {
                                assert forall|i2: int| 0 <= i2 <= i as int implies entry_located(
                                    cur,
                                    #[trigger] self.entries@[i2],
                                ) by {
                                    if i2 == i as int {
                                        assert(cur[j as int].hour == entry.chapter_id);
                                        assert(cur[j as int].blocks@[before[j as int].blocks@.len() as int].minute == entry.block_id);
                                    } else {
                                        assert(entry_located(before, self.entries@[i2]));
                                        let (x, y) = choose|j: int, k: int|
                                            0 <= j < before.len() && 0 <= k < (
                                            #[trigger] before[j]).blocks@.len() && before[j].hour
                                                == self.entries@[i2].chapter_id && (
                                            #[trigger] before[j].blocks@[k]).minute == self.entries@[i2].block_id;
                                        assert(cur[x].hour == before[x].hour);
                                        assert(cur[x].blocks@[y].minute == before[x].blocks@[y].minute);
                                    }
                                }
                                assert forall|x1: int, x2: int| 0 <= x1 < x2 < cur.len() implies (
                                #[trigger] cur[x1]).hour != (#[trigger] cur[x2]).hour by {
                                    if x2 < before.len() {
                                        assert(before[x1].hour != before[x2].hour);
                                    }
                                }
                            }

                        },
                    }
                },
                _ => {
                    let collapsed_block = self.is_block_collapsed(hour, minute);
                    let collapsed_chapter = self.is_chapter_collapsed(hour);
                    let mut ents: Vec<LedgerEntry> = Vec::new();
                    ents.push(d);
                    let mut blocks: Vec<BlockGroup> = Vec::new();
                    blocks.push(BlockGroup { hour, minute, collapsed: collapsed_block, entries: ents });
                    chapters.push(HourChapter { hour, collapsed: collapsed_chapter, blocks });
                    proof {
                        lemma_chapter_grouping_new_chapter(before, chapters@, *self, pr, entry, d);
                    }
                            let ghost cur = chapters@;
                            proof {
                                assert forall|i2: int| 0 <= i2 <= i as int implies entry_located(
                                    cur,
                                    #[trigger] self.entries@[i2],
                                ) by {
                                    if i2 == i as int {
                                        assert(cur[before.len() as int].hour == entry.chapter_id);
                                        assert(cur[before.len() as int].blocks@[0].minute == entry.block_id);
                                    } else {
                                        assert(entry_located(before, self.entries@[i2]));
                                        let (x, y) = choose|j: int, k: int|
                                            0 <= j < before.len() && 0 <= k < (
                                            #[trigger] before[j]).blocks@.len() && before[j].hour
                                                == self.entries@[i2].chapter_id && (
                                            #[trigger] before[j].blocks@[k]).minute == self.entries@[i2].block_id;
                                        assert(cur[x].hour == before[x].hour);
                                        assert(cur[x].blocks@[y].minute == before[x].blocks@[y].minute);
                                    }
                                }
                                assert forall|x1: int, x2: int| 0 <= x1 < x2 < cur.len() implies (
                                #[trigger] cur[x1]).hour != (#[trigger] cur[x2]).hour by {
                                    if x2 < before.len() {
                                        assert(before[x1].hour != before[x2].hour);
                                    }
                                }
                            }

                },
            }
            i = i + 1;
        }
        proof {
            assert(self.entries@.take(n as int) =~= self.entries@);
            assert forall|j: int| 0 <= j < chapters@.len() implies chapter_wf(
                #[trigger] chapters@[j],
                *self,
                self.entries@,
            ) by {
                assert(chapter_wf(chapters@[j], *self, self.entries@.take(n as int)));
            }
        }
        chapters
    }
}

/// After appending an entry to the block that already carries its hour and
/// minute, every chapter still filters the extended prefix.
proof fn lemma_chapter_grouping_extend_existing(
    before: Seq<HourChapter>,
    after: Seq<HourChapter>,
    st: LedgerState,
    pr: Seq<LedgerEntry>,
    entry: LedgerEntry,
    d: LedgerEntry,
    j: int,
    k: int,
)
    requires
        0 <= j < before.len(),
        after.len() == before.len(),
        forall|x: int| 0 <= x < before.len() && x != j ==> after[x] == before[x],
        0 <= k < before[j].blocks@.len(),
        after[j].blocks@.len() == before[j].blocks@.len(),
        forall|y: int|
            0 <= y < before[j].blocks@.len() && y != k ==> after[j].blocks@[y] == before[j].blocks@[y],
        after[j].hour == before[j].hour,
        after[j].collapsed == before[j].collapsed,
        after[j].blocks@[k].hour == before[j].blocks@[k].hour,
        after[j].blocks@[k].minute == before[j].blocks@[k].minute,
        after[j].blocks@[k].collapsed == before[j].blocks@[k].collapsed,
        after[j].blocks@[k].entries@ == before[j].blocks@[k].entries@.push(d),
        same_entry(d, entry),
        before[j].hour == entry.chapter_id,
        before[j].blocks@[k].minute == entry.block_id,
        forall|x: int| 0 <= x < before.len() ==> chapter_wf(#[trigger] before[x], st, pr),
        forall|x1: int, x2: int|
            0 <= x1 < x2 < before.len() ==> (#[trigger] before[x1]).hour != (
            #[trigger] before[x2]).hour,
    ensures
        forall|x: int| 0 <= x < after.len() ==> chapter_wf(#[trigger] after[x], st, pr.push(entry)),
{
    let pr2 = pr.push(entry);
    assert forall|x: int| 0 <= x < after.len() implies chapter_wf(#[trigger] after[x], st, pr2) by {
        assert(chapter_wf(before[x], st, pr));
        assert forall|y: int| 0 <= y < after[x].blocks@.len() implies block_is_filter(
            #[trigger] after[x].blocks@[y],
            pr2,
        ) by {
            let b_before = before[x].blocks@[y];
            let b_after = after[x].blocks@[y];
            let pred = block_pred(b_before.hour, b_before.minute);
            lemma_filter_push_entry(pr, entry, pred);
            assert(block_is_filter(b_before, pr));
            if x == j && y == k {
                assert(pred(entry));
                assert(b_after.entries@.len() == pr2.filter(pred).len());
            } else {
                if x == j {
                    assert(b_before.minute != entry.block_id || b_before.hour != entry.chapter_id);
                } else {
                    assert(before[x].hour != before[j].hour);
                    assert(b_before.hour != entry.chapter_id);
                }
                assert(!pred(entry));
                assert(b_after == b_before);
            }
        }
    }
}

/// After opening a fresh block for an entry whose minute was new to its
/// chapter, every chapter still filters the extended prefix.
proof fn lemma_chapter_grouping_new_block(
    before: Seq<HourChapter>,
    after: Seq<HourChapter>,
    st: LedgerState,
    pr: Seq<LedgerEntry>,
    entry: LedgerEntry,
    d: LedgerEntry,
    j: int,
)
    requires
        0 <= j < before.len(),
        after.len() == before.len(),
        forall|x: int| 0 <= x < before.len() && x != j ==> after[x] == before[x],
        after[j].hour == before[j].hour,
        after[j].collapsed == before[j].collapsed,
        after[j].blocks@.len() == before[j].blocks@.len() + 1,
        forall|y: int| 0 <= y < before[j].blocks@.len() ==> after[j].blocks@[y] == before[j].blocks@[y],
        ({
            let nb = after[j].blocks@.last();
            &&& nb.hour == entry.chapter_id
            &&& nb.minute == entry.block_id
            &&& nb.collapsed == st.collapsed_blocks@.contains(
                block_key_exec_spec(nb.hour, nb.minute),
            )
            &&& nb.entries@.len() == 1
            &&& nb.entries@[0] == d
        }),
        same_entry(d, entry),
        before[j].hour == entry.chapter_id,
        forall|y: int| 0 <= y < before[j].blocks@.len() ==> (#[trigger] before[j].blocks@[y]).minute != entry.block_id,
        forall|x: int| 0 <= x < before.len() ==> chapter_wf(#[trigger] before[x], st, pr),
        forall|x1: int, x2: int|
            0 <= x1 < x2 < before.len() ==> (#[trigger] before[x1]).hour != (
            #[trigger] before[x2]).hour,
        forall|i2: int| 0 <= i2 < pr.len() ==> entry_located(before, #[trigger] pr[i2]),
    ensures
        forall|x: int| 0 <= x < after.len() ==> chapter_wf(#[trigger] after[x], st, pr.push(entry)),
{
    let pr2 = pr.push(entry);
    let pred_new = block_pred(entry.chapter_id, entry.block_id);
    // no earlier entry carries the new block's key: a chapter for its hour
    // exists (it is chapter j, hours being distinct), yet no block of that
    // chapter carries its minute
    assert forall|i2: int| 0 <= i2 < pr.len() implies !pred_new(#[trigger] pr[i2]) by {
        if pr[i2].chapter_id == entry.chapter_id && pr[i2].block_id == entry.block_id {
            let (x, y) = choose|x: int, y: int|
                0 <= x < before.len() && 0 <= y < before[x].blocks@.len() && before[x].hour == pr[i2].chapter_id
                    && before[x].blocks@[y].minute == pr[i2].block_id;
            if x != j {
                assert(before[x].hour != before[j].hour);
            }
        }
    }
    assert(pr.filter(pred_new) =~= Seq::<LedgerEntry>::empty()) by {
        lemma_filter_all_rejected(pr, pred_new);
    }
    assert forall|x: int| 0 <= x < after.len() implies chapter_wf(#[trigger] after[x], st, pr2) by {
        assert(chapter_wf(before[x], st, pr));
        assert forall|y: int| 0 <= y < after[x].blocks@.len() implies block_is_filter(
            #[trigger] after[x].blocks@[y],
            pr2,
        ) by {
            let b_after = after[x].blocks@[y];
            let pred = block_pred(b_after.hour, b_after.minute);
            lemma_filter_push_entry(pr, entry, pred);
            if x == j && y == before[j].blocks@.len() {
                assert(pred(entry));
                assert(pr2.filter(pred) =~= seq![entry]);
                assert(b_after.entries@.len() == 1);
                assert(same_entry(b_after.entries@[0], pr2.filter(pred)[0]));
            } else {
                let b_before = before[x].blocks@[y];
                assert(b_after == b_before);
                assert(block_is_filter(b_before, pr));
                if x == j {
                    assert(b_before.minute != entry.block_id);
                } else {
                    assert(before[x].hour != before[j].hour);
                }
                assert(!pred(entry));
            }
        }
        // distinct minutes: the new block's minute was new to the chapter
        assert forall|k1: int, k2: int|
            0 <= k1 < k2 < after[x].blocks@.len() implies (#[trigger] after[x].blocks@[k1]).minute
            != (#[trigger] after[x].blocks@[k2]).minute by {
            if x == j && k2 == before[j].blocks@.len() {
                assert(before[j].blocks@[k1].minute != entry.block_id);
            }
        }
    }
}

/// After opening a fresh chapter for an entry whose hour was new, every
/// chapter still filters the extended prefix.
proof fn lemma_chapter_grouping_new_chapter(
    before: Seq<HourChapter>,
    after: Seq<HourChapter>,
    st: LedgerState,
    pr: Seq<LedgerEntry>,
    entry: LedgerEntry,
    d: LedgerEntry,
)
    requires
        after.len() == before.len() + 1,
        forall|x: int| 0 <= x < before.len() ==> after[x] == before[x],
        ({
            let nc = after.last();
            &&& nc.hour == entry.chapter_id
            &&& nc.collapsed == st.collapsed_chapters@.contains(nc.hour as u64)
            &&& nc.blocks@.len() == 1
            &&& nc.blocks@[0].hour == entry.chapter_id
            &&& nc.blocks@[0].minute == entry.block_id
            &&& nc.blocks@[0].collapsed == st.collapsed_blocks@.contains(
                block_key_exec_spec(nc.blocks@[0].hour, nc.blocks@[0].minute),
            )
            &&& nc.blocks@[0].entries@.len() == 1
            &&& nc.blocks@[0].entries@[0] == d
        }),
        same_entry(d, entry),
        forall|x: int| 0 <= x < before.len() ==> (#[trigger] before[x]).hour != entry.chapter_id,
        forall|x: int| 0 <= x < before.len() ==> chapter_wf(#[trigger] before[x], st, pr),
        forall|i2: int| 0 <= i2 < pr.len() ==> entry_located(before, #[trigger] pr[i2]),
    ensures
        forall|x: int| 0 <= x < after.len() ==> chapter_wf(#[trigger] after[x], st, pr.push(entry)),
{
    let pr2 = pr.push(entry);
    let pred_new = block_pred(entry.chapter_id, entry.block_id);
    assert forall|i2: int| 0 <= i2 < pr.len() implies !pred_new(#[trigger] pr[i2]) by {
        if pr[i2].chapter_id == entry.chapter_id && pr[i2].block_id == entry.block_id {
            let (x, y) = choose|x: int, y: int|
                0 <= x < before.len() && 0 <= y < before[x].blocks@.len() && before[x].hour == pr[i2].chapter_id
                    && before[x].blocks@[y].minute == pr[i2].block_id;
            assert(before[x].hour != entry.chapter_id);
        }
    }
    assert(pr.filter(pred_new) =~= Seq::<LedgerEntry>::empty()) by {
        lemma_filter_all_rejected(pr, pred_new);
    }
    assert forall|x: int| 0 <= x < after.len() implies chapter_wf(#[trigger] after[x], st, pr2) by {
        assert forall|y: int| 0 <= y < after[x].blocks@.len() implies block_is_filter(
            #[trigger] after[x].blocks@[y],
            pr2,
        ) by {
            let b_after = after[x].blocks@[y];
            let pred = block_pred(b_after.hour, b_after.minute);
            lemma_filter_push_entry(pr, entry, pred);
            if x == before.len() {
                assert(pred(entry));
                assert(pr2.filter(pred) =~= seq![entry]);
                assert(same_entry(b_after.entries@[0], pr2.filter(pred)[0]));
            } else {
                assert(chapter_wf(before[x], st, pr));
                assert(b_after == before[x].blocks@[y]);
                assert(before[x].hour != entry.chapter_id);
                assert(!pred(entry));
            }
        }
        if x < before.len() {
            assert(chapter_wf(before[x], st, pr));
        }
    }
}

/// A filter that rejects every element yields the empty sequence.
proof fn lemma_filter_all_rejected(s: Seq<LedgerEntry>, pred: spec_fn(LedgerEntry) -> bool)
    requires
        forall|i: int| 0 <= i < s.len() ==> !pred(#[trigger] s[i]),
    ensures
        s.filter(pred).len() == 0,
    decreases s.len(),
{
    reveal(Seq::filter);
    if s.len() > 0 {
        lemma_filter_all_rejected(s.drop_last(), pred);
    }
}

/// The collapse key of the block `(hour, minute)`, as a `u64`.
pub open spec fn block_key_exec_spec(hour: u32, minute: u32) -> u64 {
    ((hour as u64) * 4294967296 + (minute as u64)) as u64
}

/// The collapse key of the block `(hour, minute)`.
fn block_key_exec(hour: u32, minute: u32) -> (r: u64)
    ensures
        r == block_key_exec_spec(hour, minute),
{
    (hour as u64) * 4294967296 + (minute as u64)
}

/// The "hh:00" text of a gap boundary, built in executable code.
fn gap_text_exec(h: u32) -> (r: String)
    requires
        h < 100,
    ensures
        r@ == gap_text(h as int),
{
    let mut s = String::from_str("");
    proof {
        reveal_strlit("");
    }
    crate::text::push_two_digits(&mut s, h);
    s.append(":00");
    proof {
        assert(s@ =~= gap_text(h as int));
    }
    s
}

} // verus!
