//! The civil-day domain: local midnight bounds, day length, the normalized
//! position of an instant within its local day, and the day's
//! daylight-saving fault spans (gaps and overlaps), found by hourly offset
//! sampling.
//!
//! Positions within a day are fixed-point fractions in millionths (0 is
//! local midnight, 1_000_000 the next midnight).

use vstd::prelude::*;
use vstd::string::StringExecFns;

use crate::engine::{hour12_from, hour24_of, local_day, minute_of, second_of};
use crate::zone::{
    civil_date, civil_date_of_day, instant_in_range, zone_local_instant, zone_offset_minutes,
    ZoneId,
};

verus! {

/// Information about a DST fault line within one local day.
#[derive(Debug, Clone)]
pub struct DstFault {
    /// Normalized position (millionths of the day) where the fault begins.
    pub position: u64,
    /// Width of the fault band, in millionths of the day.
    pub width: u64,
    /// Offset delta in minutes (positive = spring-forward gap, negative =
    /// fall-back overlap).
    pub delta_minutes: i32,
    /// Label of the first pass through a repeated hour, for overlaps.
    pub label_a: Option<String>,
    /// Label of the second pass through a repeated hour, for overlaps.
    pub label_b: Option<String>,
}

/// Day domain information for one local calendar day.
#[derive(Debug)]
pub struct DayDomain {
    /// Seconds from local midnight to the instant the domain was built for.
    pub seconds_since_midnight: i64,
    /// Length of the day in seconds (86400, or 82800 / 90000 around DST).
    pub day_length_seconds: i64,
    /// Normalized position of that instant in the day, in millionths,
    /// clamped to 0..=1_000_000.
    pub normalized_position: u32,
    /// The DST faults of this day, in order of occurrence.
    pub dst_faults: Vec<DstFault>,
    /// Local midnight as a UTC instant (seconds since the epoch).
    pub midnight_utc: i64,
    /// Next local midnight as a UTC instant.
    pub next_midnight_utc: i64,
}

/// The UTC instant of local midnight on `y-m-d`, falling back to 01:00 when
/// exact midnight is skipped or repeated.
pub open spec fn resolved_midnight(name: Seq<char>, y: int, m: int, d: int) -> Option<int> {
    if zone_local_instant(name, y, m, d, 0) is Some {
        zone_local_instant(name, y, m, d, 0)
    } else {
        zone_local_instant(name, y, m, d, 1)
    }
}

/// Midnight of the local day containing `t`.
pub open spec fn midnight_of(name: Seq<char>, t: int) -> Option<int> {
    let date = civil_date_of_day(local_day(name, t));
    resolved_midnight(name, date.0, date.1, date.2)
}

/// Midnight of the local day after the one containing `t`.
pub open spec fn next_midnight_of(name: Seq<char>, t: int) -> Option<int> {
    let date = civil_date_of_day(local_day(name, t) + 1);
    resolved_midnight(name, date.0, date.1, date.2)
}

/// The day domain for `t` is computable: both midnights resolve, they are in
/// the right order at most two days apart, and midnight lies within two days
/// of `t` itself.
pub open spec fn domain_computable(name: Seq<char>, t: int) -> bool {
    &&& midnight_of(name, t) matches Some(m) && next_midnight_of(name, t) matches Some(n)
        && 0 < n - m <= 172800 && t - 172800 <= m <= t + 172800
}

/// Normalized position (millionths) of second `ssm` in a day of length
/// `len`, clamped to 0..=1_000_000 as the domain clamps it.
pub open spec fn pos_clamped(ssm: int, len: int) -> int {
    if ssm <= 0 {
        0
    } else if ssm >= len {
        1_000_000
    } else {
        ssm * 1_000_000 / len
    }
}

/// Seconds since midnight for a normalized position `p` in a day of length
/// `len` (the inverse scaling, rounded down).
pub open spec fn ssm_of_pos(p: int, len: int) -> int {
    p * len / 1_000_000
}

/// There is an offset change between hourly samples `h` and `h + 1` after
/// midnight `mid`.
pub open spec fn fault_at_hour(name: Seq<char>, mid: int, h: int) -> bool {
    zone_offset_minutes(name, mid + 3600 * h) != zone_offset_minutes(name, mid + 3600 * (h + 1))
}

/// The hours `h` in `0..upto` with an offset change between samples `h` and
/// `h + 1`, in increasing order.
pub open spec fn fault_hours_upto(name: Seq<char>, mid: int, upto: int) -> Seq<int>
    decreases upto,
{
    if upto <= 0 {
        Seq::empty()
    } else {
        let prev = fault_hours_upto(name, mid, upto - 1);
        if fault_at_hour(name, mid, upto - 1) {
            prev.push(upto - 1)
        } else {
            prev
        }
    }
}

/// The hour indices of all faults of a day of length `len` starting at
/// `mid`: hourly sample pairs that fit inside the day.
pub open spec fn fault_hours_of(name: Seq<char>, mid: int, len: int) -> Seq<int> {
    fault_hours_upto(name, mid, len / 3600)
}

/// The fault record `f` describes the offset change at hour `h` of the day
/// of length `len` starting at `mid`: its delta, its position and width as
/// fractions of the day, and pass labels exactly for overlaps.
pub open spec fn fault_matches(f: DstFault, name: Seq<char>, mid: int, len: int, h: int) -> bool {
    let o1 = zone_offset_minutes(name, mid + 3600 * h);
    let o2 = zone_offset_minutes(name, mid + 3600 * (h + 1));
    let delta = o2 - o1;
    &&& f.delta_minutes == delta
    &&& f.position == 3600 * h * 1_000_000 / len
    &&& f.width == (if delta >= 0 {
        delta
    } else {
        -delta
    }) * 60 * 1_000_000 / len
    &&& (delta < 0 ==> (f.label_a matches Some(a) && a@ == "(A)"@))
    &&& (delta < 0 ==> (f.label_b matches Some(b) && b@ == "(B)"@))
    &&& (delta >= 0 ==> f.label_a is None && f.label_b is None)
}

/// The whole fault list of `dom` is the model's fault list for its midnight
/// and day length in the zone named `name`.
pub open spec fn faults_match(dom: DayDomain, name: Seq<char>) -> bool {
    let hours = fault_hours_of(name, dom.midnight_utc as int, dom.day_length_seconds as int);
    &&& dom.dst_faults@.len() == hours.len()
    &&& forall|k: int|
        0 <= k < hours.len() ==> fault_matches(
            #[trigger] dom.dst_faults@[k],
            name,
            dom.midnight_utc as int,
            dom.day_length_seconds as int,
            hours[k],
        )
}

/// Well-formedness of a day domain: field relations and bounds that every
/// constructed domain has and every method relies on.
pub open spec fn dom_wf(dom: DayDomain) -> bool {
    &&& 0 < dom.day_length_seconds <= 172800
    &&& dom.next_midnight_utc == dom.midnight_utc + dom.day_length_seconds
    &&& -345600 <= dom.seconds_since_midnight <= 345600
    &&& dom.normalized_position <= 1_000_000
    &&& forall|k: int|
        0 <= k < dom.dst_faults@.len() ==> (#[trigger] dom.dst_faults@[k]).position < 1_000_000
            && dom.dst_faults@[k].width <= 172680_000_000 && dom.dst_faults@[k].delta_minutes != 0
    &&& forall|k: int|
        0 <= k < dom.dst_faults@.len() && (#[trigger] dom.dst_faults@[k]).delta_minutes < 0
            ==> (dom.dst_faults@[k].label_a matches Some(a) && a@ == "(A)"@) && (
        dom.dst_faults@[k].label_b matches Some(b) && b@ == "(B)"@)
}

impl DayDomain {
    /// Compute the day domain for the local calendar day containing
    /// `instant` in `zone`.
    ///
    /// Returns `None` exactly when the day's bounds cannot be resolved: a
    /// midnight (even with its 01:00 fallback) that the zone cannot place,
    /// out of order, or absurdly far from the instant.
    pub fn compute(instant: i64, zone: &ZoneId) -> (r: Option<DayDomain>)
        requires
            instant_in_range(instant as int),
        ensures
            r is Some <==> domain_computable(zone@, instant as int),
            r matches Some(dom) ==> {
                &&& dom_wf(dom)
                &&& Some(dom.midnight_utc as int) == midnight_of(zone@, instant as int)
                &&& Some(dom.next_midnight_utc as int) == next_midnight_of(zone@, instant as int)
                &&& dom.day_length_seconds == dom.next_midnight_utc - dom.midnight_utc
                &&& dom.seconds_since_midnight == instant - dom.midnight_utc
                &&& dom.normalized_position == pos_clamped(
                    instant - dom.midnight_utc,
                    dom.day_length_seconds as int,
                )
                &&& faults_match(dom, zone@)
            },
    {
        let days = local_day_exec(zone, instant);
        let (y0, m0, d0, _o0) = civil_date(days);
        let (y1, m1, d1, _o1) = civil_date(days + 1);
        let midnight = resolve_midnight_exec(zone, y0, m0, d0);
        let next_midnight = resolve_midnight_exec(zone, y1, m1, d1);
        let (mid, next) = match (midnight, next_midnight) {
            (Some(m), Some(n)) => (m, n),
            _ => {
                return Option::None;
            },
        };
        let len = match next.checked_sub(mid) {
            Some(l) => l,
            _ => {
                return Option::None;
            },
        };
        if !(0 < len && len <= 172800) {
            return Option::None;
        }
        if !(instant - 172800 <= mid && mid <= instant + 172800) {
            return Option::None;
        }
        let ssm: i64 = instant - mid;
        let normalized_position = pos_clamped_exec(ssm, len);
        let dst_faults = detect_dst_faults(zone, mid, len);
        Some(
            DayDomain {
                seconds_since_midnight: ssm,
                day_length_seconds: len,
                normalized_position,
                dst_faults,
                midnight_utc: mid,
                next_midnight_utc: next,
            },
        )
    }

    /// Convert a normalized position (millionths) to seconds since midnight.
    pub fn position_to_ssm(&self, p: u32) -> (r: i64)
        requires
            dom_wf(*self),
        ensures
            r == ssm_of_pos(p as int, self.day_length_seconds as int),
    {
        proof {
            assert((p as int) * (self.day_length_seconds as int) <= 4294967295 * 172800)
                by (nonlinear_arith)
                requires
                    0 <= p <= 4294967295,
                    0 < self.day_length_seconds <= 172800,
            ;
        }
        (p as i64) * self.day_length_seconds / 1_000_000
    }

    /// Convert seconds since midnight to a normalized position (millionths),
    /// clamped to the day.
    pub fn ssm_to_position(&self, ssm: i64) -> (r: u32)
        requires
            dom_wf(*self),
        ensures
            r == pos_clamped(ssm as int, self.day_length_seconds as int),
    {
        pos_clamped_exec(ssm, self.day_length_seconds)
    }

    /// Snap a normalized position to the nearest minute boundary at or
    /// before it.
    pub fn snap_to_minute(&self, p: u32) -> (r: u32)
        requires
            dom_wf(*self),
        ensures
            r == pos_clamped(
                ssm_of_pos(p as int, self.day_length_seconds as int) / 60 * 60,
                self.day_length_seconds as int,
            ),
    {
        let ssm = self.position_to_ssm(p);
        let snapped = ssm / 60 * 60;
        self.ssm_to_position(snapped)
    }

    /// Whether position `p` falls inside a spring-forward gap: local
    /// wall-clock time that never occurred.
    pub fn is_in_gap(&self, p: u32) -> (r: bool)
        requires
            dom_wf(*self),
        ensures
            r == in_gap_spec(*self, p as int),
    {
        let n = self.dst_faults.len();
        let mut i: usize = 0;
        while i < n
            invariant
                dom_wf(*self),
                n == self.dst_faults@.len(),
                i <= n,
                forall|k: int| 0 <= k < i ==> !gap_fault_covers(#[trigger] self.dst_faults@[k], p as int),
            decreases n - i,
        {
            let f = &self.dst_faults[i];
            if f.delta_minutes > 0 && f.position <= p as u64 && (p as u64) < f.position + f.width {
                return true;
            }
            i = i + 1;
        }
        false
    }

    /// The first fall-back overlap fault covering position `p`, if any:
    /// local wall-clock time that occurred twice.
    pub fn is_in_overlap(&self, p: u32) -> (r: Option<&DstFault>)
        requires
            dom_wf(*self),
        ensures
            r is Some <==> in_overlap_spec(*self, p as int),
            r matches Some(f) ==> exists|k: int|
                0 <= k < self.dst_faults@.len() && *f == self.dst_faults@[k]
                    && overlap_fault_covers(#[trigger] self.dst_faults@[k], p as int) && forall|j: int|
                    0 <= j < k ==> !overlap_fault_covers(#[trigger] self.dst_faults@[j], p as int),
    {
        let n = self.dst_faults.len();
        let mut i: usize = 0;
        while i < n
            invariant
                dom_wf(*self),
                n == self.dst_faults@.len(),
                i <= n,
                forall|k: int| 0 <= k < i ==> !overlap_fault_covers(#[trigger] self.dst_faults@[k], p as int),
            decreases n - i,
        {
            let f = &self.dst_faults[i];
            if f.delta_minutes < 0 && f.position <= p as u64 && (p as u64) < f.position + f.width {
                return Some(f);
            }
            i = i + 1;
        }
        Option::None
    }
}

/// A positive-delta (gap) fault span containing position `p`.
pub open spec fn gap_fault_covers(f: DstFault, p: int) -> bool {
    f.delta_minutes > 0 && f.position <= p < f.position + f.width
}

/// A negative-delta (overlap) fault span containing position `p`.
pub open spec fn overlap_fault_covers(f: DstFault, p: int) -> bool {
    f.delta_minutes < 0 && f.position <= p < f.position + f.width
}

/// Position `p` lies in some gap fault of `dom`.
pub open spec fn in_gap_spec(dom: DayDomain, p: int) -> bool {
    exists|k: int| 0 <= k < dom.dst_faults@.len() && gap_fault_covers(#[trigger] dom.dst_faults@[k], p)
}

/// Position `p` lies in some overlap fault of `dom`.
pub open spec fn in_overlap_spec(dom: DayDomain, p: int) -> bool {
    exists|k: int|
        0 <= k < dom.dst_faults@.len() && overlap_fault_covers(#[trigger] dom.dst_faults@[k], p)
}

/// Epoch day number of the local calendar day of `t`.
fn local_day_exec(zone: &ZoneId, t: i64) -> (r: i64)
    requires
        instant_in_range(t as int),
    ensures
        r == local_day(zone@, t as int),
        -47_000_000 <= r <= 47_000_000,
{
    let off = zone.offset_minutes_at(t);
    let ls: i64 = t + 60 * (off as i64);
    ls.checked_div_euclid(86400).unwrap()
}

/// Resolve local midnight of a date, with the 01:00 fallback.
fn resolve_midnight_exec(zone: &ZoneId, y: i32, m: u8, d: u8) -> (r: Option<i64>)
    ensures
        r is Some <==> resolved_midnight(zone@, y as int, m as int, d as int) is Some,
        r matches Some(u) ==> resolved_midnight(zone@, y as int, m as int, d as int) == Some(
            u as int,
        ),
{
    match zone.local_instant_at(y, m, d, 0) {
        Some(u) => Some(u),
        _ => zone.local_instant_at(y, m, d, 1),
    }
}

/// Clamped fixed-point position of `ssm` within a day of length `len`.
fn pos_clamped_exec(ssm: i64, len: i64) -> (r: u32)
    requires
        0 < len <= 172800,
    ensures
        r == pos_clamped(ssm as int, len as int),
        r <= 1_000_000,
{
    if ssm <= 0 {
        0
    } else if ssm >= len {
        1_000_000
    } else {
        let scaled = ssm * 1_000_000 / len;
        proof {
            let si = ssm as int;
            let li = len as int;
            assert(0 <= si * 1_000_000 < li * 1_000_000) by (nonlinear_arith)
                requires
                    0 < si < li,
            ;
            assert(0 <= si * 1_000_000 / li < 1_000_000) by (nonlinear_arith)
                requires
                    0 < li,
                    0 <= si * 1_000_000 < li * 1_000_000,
            ;
        }
        scaled as u32
    }
}

/// Sample the offset once per hour across the day and record every change
/// as a fault.
fn detect_dst_faults(zone: &ZoneId, mid: i64, len: i64) -> (r: Vec<DstFault>)
    requires
        0 < len <= 172800,
        -5_000_000_000_000 <= mid <= 5_000_000_000_000,
    ensures
        ({
            let hours = fault_hours_of(zone@, mid as int, len as int);
            &&& r@.len() == hours.len()
            &&& forall|k: int|
                0 <= k < hours.len() ==> fault_matches(
                    #[trigger] r@[k],
                    zone@,
                    mid as int,
                    len as int,
                    hours[k],
                )
            &&& forall|k: int|
                0 <= k < r@.len() ==> (#[trigger] r@[k]).position < 1_000_000
                    && r@[k].width <= 172680_000_000 && r@[k].delta_minutes != 0
            &&& forall|k: int|
                0 <= k < r@.len() && (#[trigger] r@[k]).delta_minutes < 0 ==> (r@[k].label_a
                    matches Some(a) && a@ == "(A)"@) && (r@[k].label_b matches Some(b) && b@
                    == "(B)"@)
        }),
{
    let mut faults: Vec<DstFault> = Vec::new();
    let hour_limit = len / 3600;
    let mut prev_offset = zone.offset_minutes_at(mid);
    let mut h: i64 = 0;
    while h < hour_limit
        invariant
            0 < len <= 172800,
            -5_000_000_000_000 <= mid <= 5_000_000_000_000,
            hour_limit == len as int / 3600,
            0 <= h <= hour_limit,
            prev_offset as int == zone_offset_minutes(zone@, mid + 3600 * h),
            -1439 <= prev_offset as int <= 1439,
            faults@.len() == fault_hours_upto(zone@, mid as int, h as int).len(),
            forall|k: int|
                0 <= k < faults@.len() ==> fault_matches(
                    #[trigger] faults@[k],
                    zone@,
                    mid as int,
                    len as int,
                    fault_hours_upto(zone@, mid as int, h as int)[k],
                ),
            forall|k: int|
                0 <= k < faults@.len() ==> (#[trigger] faults@[k]).position < 1_000_000
                    && faults@[k].width <= 172680_000_000 && faults@[k].delta_minutes != 0,
            forall|k: int|
                0 <= k < faults@.len() && (#[trigger] faults@[k]).delta_minutes < 0 ==> (
                faults@[k].label_a matches Some(a) && a@ == "(A)"@) && (faults@[k].label_b
                    matches Some(b) && b@ == "(B)"@),
        decreases hour_limit - h,
    {
        let next_probe: i64 = mid + 3600 * (h + 1);
        let next_offset = zone.offset_minutes_at(next_probe);
        if next_offset != prev_offset {
            let delta: i32 = next_offset - prev_offset;
            let transition_ssm: i64 = 3600 * h;
            let position: u64 = (transition_ssm * 1_000_000 / len) as u64;
            let abs_delta: i64 = if delta >= 0 {
                delta as i64
            } else {
                -(delta as i64)
            };
            let width: u64 = (abs_delta * 60 * 1_000_000 / len) as u64;
            proof {
                let ti = transition_ssm as int;
                let li = len as int;
                let ai = abs_delta as int;
                assert(0 <= ti * 1_000_000 < li * 1_000_000) by (nonlinear_arith)
                    requires
                        0 <= ti < li,
                ;
                assert(0 <= ti * 1_000_000 / li < 1_000_000) by (nonlinear_arith)
                    requires
                        0 < li,
                        0 <= ti * 1_000_000 < li * 1_000_000,
                ;
                assert(0 <= ai * 60 * 1_000_000 / li <= 172680_000_000) by (nonlinear_arith)
                    requires
                        0 < li,
                        0 <= ai <= 2878,
                ;
            }
            let (label_a, label_b) = if delta < 0 {
                (Some(String::from_str("(A)")), Some(String::from_str("(B)")))
            } else {
                (Option::None, Option::None)
            };
            let fault = DstFault { position, width, delta_minutes: delta, label_a, label_b };
            faults.push(fault);
            proof {
                let hs = fault_hours_upto(zone@, mid as int, h + 1);
                assert(hs == fault_hours_upto(zone@, mid as int, h as int).push(h as int));
            }
        } else {
            proof {
                let hs = fault_hours_upto(zone@, mid as int, h + 1);
                assert(hs == fault_hours_upto(zone@, mid as int, h as int));
            }
        }
        prev_offset = next_offset;
        h = h + 1;
    }
    proof {
        assert(3600 * (hour_limit as int) <= len as int) by (nonlinear_arith)
            requires
                hour_limit == len as int / 3600,
                0 < len,
        ;
    }
    faults
}

/// Round trip between positions and seconds since midnight: scaling a
/// second to a position and back loses at most one second.
pub proof fn lemma_position_round_trip(dom: DayDomain, x: int)
    requires
        dom_wf(dom),
        0 <= x < dom.day_length_seconds,
    ensures
        x - 1 <= ssm_of_pos(
            pos_clamped(x, dom.day_length_seconds as int),
            dom.day_length_seconds as int,
        ) <= x,
{
    let len = dom.day_length_seconds as int;
    if x == 0 {
        assert(ssm_of_pos(0, len) == 0);
    } else {
        let p = x * 1_000_000 / len;
        assert(pos_clamped(x, len) == p);
        assert(p * len / 1_000_000 <= x && p * len / 1_000_000 >= x - 1) by (nonlinear_arith)
            requires
                0 < x < len,
                0 < len < 1_000_000,
                p == x * 1_000_000 / len,
        ;
    }
}

/// Hour boundary information for grid rendering.
#[derive(Debug)]
pub struct HourBoundary {
    /// Normalized position (millionths of the day).
    pub position: u32,
    /// Hour label (e.g., "12 AM", "3 PM").
    pub label: String,
    /// Whether this is midnight.
    pub is_midnight: bool,
    /// Whether this is the next day's midnight.
    pub is_next_day: bool,
    /// Pass suffix for hours inside a fall-back overlap: "(A)" in the first
    /// half of the fault band, "(B)" in the second.
    pub suffix: Option<String>,
}

/// The label of hour `h` in 0..24: "12 AM" at midnight, else the 12-hour
/// number with its meridiem.
pub open spec fn hour_label(h: int) -> Seq<char> {
    if h == 0 {
        "12 AM"@
    } else {
        crate::text::dec_digits(hour12_from(h)) + " "@ + (if h < 12 {
            "AM"@
        } else {
            "PM"@
        })
    }
}

/// The boundary record for hour `hour` of the day `dom`, whose label and
/// flags follow the hour and whose suffix names the overlap pass when the
/// boundary position falls inside a fall-back fault band.
pub open spec fn boundary_matches(b: HourBoundary, dom: DayDomain, hour: int) -> bool {
    let p = pos_clamped(3600 * hour, dom.day_length_seconds as int);
    &&& b.position == p
    &&& b.label@ == hour_label(hour % 24)
    &&& b.is_midnight == (hour % 24 == 0)
    &&& b.is_next_day == (hour % 24 == 0 && hour > 0)
    &&& (b.suffix is Some <==> in_overlap_spec(dom, p))
    &&& (b.suffix matches Some(sfx) ==> exists|k: int|
        0 <= k < dom.dst_faults@.len() && overlap_fault_covers(#[trigger] dom.dst_faults@[k], p)
            && (forall|j: int| 0 <= j < k ==> !overlap_fault_covers(#[trigger] dom.dst_faults@[j], p))
            && sfx@ == (if p < dom.dst_faults@[k].position + dom.dst_faults@[k].width / 2 {
            "(A)"@
        } else {
            "(B)"@
        }))
}

/// Generate the hour boundaries of the day for grid rendering: one for each
/// whole hour from midnight up to and including the next midnight, as far
/// as the day's length reaches.
pub fn generate_hour_boundaries(dom: &DayDomain) -> (r: Vec<HourBoundary>)
    requires
        dom_wf(*dom),
    ensures
        r@.len() == 1 + (if dom.day_length_seconds as int / 3600 <= 24 {
            dom.day_length_seconds as int / 3600
        } else {
            24
        }),
        forall|h: int| 0 <= h < r@.len() ==> boundary_matches(#[trigger] r@[h], *dom, h),
{
    let mut boundaries: Vec<HourBoundary> = Vec::new();
    let mut hour: i64 = 0;
    while hour <= 24
        invariant
            dom_wf(*dom),
            0 <= hour <= 25,
            boundaries@.len() == hour,
            forall|h: int| 0 <= h < hour ==> boundary_matches(#[trigger] boundaries@[h], *dom, h),
            forall|h: int| 0 <= h < hour ==> #[trigger] (3600 * h) <= dom.day_length_seconds,
            hour == 25 ==> 24 * 3600 <= dom.day_length_seconds,
        decreases 25 - hour,
    {
        let ssm: i64 = hour * 3600;
        if ssm > dom.day_length_seconds {
            proof {
                assert(dom.day_length_seconds as int / 3600 < hour) by (nonlinear_arith)
                    requires
                        3600 * (hour as int) > dom.day_length_seconds as int,
                        0 < dom.day_length_seconds,
                        hour >= 1,
                ;
                assert(3600 * ((hour as int) - 1) <= dom.day_length_seconds);
                assert(hour as int - 1 <= dom.day_length_seconds as int / 3600) by (nonlinear_arith)
                    requires
                        3600 * ((hour as int) - 1) <= dom.day_length_seconds as int,
                        0 < dom.day_length_seconds,
                ;
            }
            return boundaries;
        }
        let position = pos_clamped_exec(ssm, dom.day_length_seconds);
        let hour_mod: i64 = hour % 24;
        let is_midnight = hour_mod == 0;
        let label: String = if is_midnight {
            String::from_str("12 AM")
        } else {
            let mut s = String::from_str("");
            proof {
                reveal_strlit("");
            }
            let hour12: u64 = if hour_mod <= 12 {
                hour_mod as u64
            } else {
                (hour_mod - 12) as u64
            };
            crate::text::push_u64(&mut s, hour12);
            if hour_mod < 12 {
                s.append(" AM");
            } else {
                s.append(" PM");
            }
            proof {
                reveal_strlit(" AM");
                reveal_strlit(" PM");
                reveal_strlit(" ");
                reveal_strlit("AM");
                reveal_strlit("PM");
                assert(s@ =~= hour_label(hour_mod as int));
            }
            s
        };
        let suffix: Option<String> = match dom.is_in_overlap(position) {
            Some(fault) => {
                let sfx = if (position as u64) < fault.position + fault.width / 2 {
                    String::from_str("(A)")
                } else {
                    String::from_str("(B)")
                };
                Some(sfx)
            },
            _ => Option::None,
        };
        let boundary = HourBoundary {
            position,
            label,
            is_midnight,
            is_next_day: is_midnight && hour > 0,
            suffix,
        };
        boundaries.push(boundary);
        proof {
            assert(3600 * (hour as int) == ssm as int);
            assert(boundary_matches(boundaries@.last(), *dom, hour as int));
        }
        hour = hour + 1;
    }
    proof {
        assert(24 <= dom.day_length_seconds as int / 3600) by (nonlinear_arith)
            requires
                24 * 3600 <= dom.day_length_seconds as int,
        ;
    }
    boundaries
}

/// Terrain parameters extracted from a local time.
#[derive(Debug, Clone, Copy, PartialEq, Eq, Structural)]
pub struct TerrainParams {
    /// Hour in 12-hour format (1-12).
    pub hour12: u32,
    /// Minute (0-59).
    pub minute: u32,
    /// Second (0-59).
    pub second: u32,
    /// Day of year (1-366).
    pub day_of_year: u32,
}

impl TerrainParams {
    /// Extract the parameters for the local datetime of `instant` in `zone`.
    pub fn from_datetime(zone: &ZoneId, instant: i64) -> (r: TerrainParams)
        requires
            instant_in_range(instant as int),
        ensures
            r.hour12 == hour12_from(hour24_of(zone@, instant as int)),
            r.minute == minute_of(zone@, instant as int),
            r.second == second_of(zone@, instant as int),
            r.day_of_year == civil_date_of_day(local_day(zone@, instant as int)).3,
    {
        let off = zone.offset_minutes_at(instant);
        let ls: i64 = instant + 60 * (off as i64);
        let days = ls.checked_div_euclid(86400).unwrap();
        let sod = ls.checked_rem_euclid(86400).unwrap();
        let hour24 = (sod / 3600) as u32;
        let hour12 = if hour24 == 0 {
            12
        } else if hour24 <= 12 {
            hour24
        } else {
            hour24 - 12
        };
        let (_y, _m, _d, day_of_year) = civil_date(days);
        TerrainParams {
            hour12,
            minute: ((sod / 60) % 60) as u32,
            second: (sod % 60) as u32,
            day_of_year: day_of_year as u32,
        }
    }
}

} // verus!
