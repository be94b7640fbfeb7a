//! The time engine: builds a full local-time snapshot for an (instant, zone)
//! pair, detects whether daylight-saving time is active, and locates and
//! classifies nearby offset transitions.

use vstd::prelude::*;
use vstd::string::StringExecFns;

use crate::text::{contains_ci, contains_chars, dec_digits, dec_int, lower_chars, lower_seq, pad2, push_i64, push_pad2, push_two_digits, push_u64, two_digits};
use crate::zone::{
    civil_date, civil_date_of_day, instant_in_range, now_utc, zone_abbrev, zone_local_instant,
    zone_name_ok, zone_offset_minutes, ZoneId, INSTANT_MAX, INSTANT_MIN,
};

verus! {

/// AM/PM indicator.
#[derive(Debug, Clone, Copy, PartialEq, Eq, Structural)]
pub enum Meridiem {
    AM,
    PM,
}

impl Meridiem {
    /// The display text, "AM" or "PM".
    pub fn text(&self) -> (r: &'static str)
        ensures
            r@ == meridiem_text(*self),
    {
        match self {
            Meridiem::AM => "AM",
            Meridiem::PM => "PM",
        }
    }
}

/// The display text of a meridiem.
pub open spec fn meridiem_text(m: Meridiem) -> Seq<char> {
    match m {
        Meridiem::AM => "AM"@,
        Meridiem::PM => "PM"@,
    }
}

/// Day of week, named as the timezone library names them.
#[derive(Debug, Clone, Copy, PartialEq, Eq, Structural)]
pub enum Weekday {
    Mon,
    Tue,
    Wed,
    Thu,
    Fri,
    Sat,
    Sun,
}

impl Weekday {
    /// The three-letter display text, "Mon" through "Sun".
    pub fn text(&self) -> (r: &'static str)
        ensures
            r@ == weekday_text(*self),
    {
        match self {
            Weekday::Mon => "Mon",
            Weekday::Tue => "Tue",
            Weekday::Wed => "Wed",
            Weekday::Thu => "Thu",
            Weekday::Fri => "Fri",
            Weekday::Sat => "Sat",
            Weekday::Sun => "Sun",
        }
    }
}

/// The display text of a weekday.
pub open spec fn weekday_text(w: Weekday) -> Seq<char> {
    match w {
        Weekday::Mon => "Mon"@,
        Weekday::Tue => "Tue"@,
        Weekday::Wed => "Wed"@,
        Weekday::Thu => "Thu"@,
        Weekday::Fri => "Fri"@,
        Weekday::Sat => "Sat"@,
        Weekday::Sun => "Sun"@,
    }
}

/// Validity of the zone data a snapshot was built from.
#[derive(Debug, Clone, Copy, PartialEq, Eq, Structural)]
pub enum Validity {
    /// Everything is working correctly.
    Valid,
    /// Time zone data is missing.
    TzMissing,
    /// Time zone data may be stale.
    TzDataStale,
    /// Unknown validity state.
    Unknown,
}

/// DST transition information.
#[derive(Debug, Clone, PartialEq, Eq, Structural)]
pub enum DstChange {
    /// No DST change within the detection window.
    NoChange,
    /// DST change upcoming within 24 hours.
    Upcoming {
        /// When the change occurs (UTC seconds since the epoch).
        instant: i64,
        /// Offset change in minutes (positive = spring forward, negative = fall back).
        delta_minutes: i32,
    },
    /// DST change just occurred within the last 24 hours.
    JustOccurred {
        /// When the change occurred (UTC seconds since the epoch).
        instant: i64,
        /// Offset change in minutes.
        delta_minutes: i32,
    },
}

/// Seconds on the zone's local clock: the instant shifted by the offset.
pub open spec fn local_secs(name: Seq<char>, t: int) -> int {
    t + 60 * zone_offset_minutes(name, t)
}

/// Epoch day number of the local calendar day containing `t`.
pub open spec fn local_day(name: Seq<char>, t: int) -> int {
    local_secs(name, t) / 86400
}

/// Seconds since local midnight, in 0..86400.
pub open spec fn second_of_day(name: Seq<char>, t: int) -> int {
    local_secs(name, t) % 86400
}

/// Local hour in 0..24.
pub open spec fn hour24_of(name: Seq<char>, t: int) -> int {
    second_of_day(name, t) / 3600
}

/// Local minute in 0..60.
pub open spec fn minute_of(name: Seq<char>, t: int) -> int {
    (second_of_day(name, t) / 60) % 60
}

/// Local second in 0..60.
pub open spec fn second_of(name: Seq<char>, t: int) -> int {
    second_of_day(name, t) % 60
}

/// The 12-hour form of a 0..24 hour: 0 becomes 12, 13..23 drop 12.
pub open spec fn hour12_from(h: int) -> int {
    if h == 0 {
        12
    } else if h <= 12 {
        h
    } else {
        h - 12
    }
}

/// Weekday index of an epoch day number, 0 = Sunday .. 6 = Saturday
/// (day 0, 1970-01-01, was a Thursday).
pub open spec fn weekday_num(days: int) -> int {
    (days + 4) % 7
}

/// The weekday for an index in 0..7 as `weekday_num` counts them.
pub open spec fn weekday_from_num(n: int) -> Weekday {
    if n == 0 {
        Weekday::Sun
    } else if n == 1 {
        Weekday::Mon
    } else if n == 2 {
        Weekday::Tue
    } else if n == 3 {
        Weekday::Wed
    } else if n == 4 {
        Weekday::Thu
    } else if n == 5 {
        Weekday::Fri
    } else {
        Weekday::Sat
    }
}

/// Whether DST is active at `t` under the seasonal reference heuristic:
/// sample the offset at local January 15 noon and July 15 noon of the local
/// year; if they differ, DST is active exactly when the offset at `t` equals
/// the larger of the two; if they agree (or either reference time cannot be
/// resolved), the zone is modeled as having no DST.
pub open spec fn is_dst_spec(name: Seq<char>, t: int) -> bool {
    let y = civil_date_of_day(local_day(name, t)).0;
    let jan = zone_local_instant(name, y, 1, 15, 12);
    let jul = zone_local_instant(name, y, 7, 15, 12);
    if jan is Some && jul is Some {
        let oj = zone_offset_minutes(name, jan.unwrap());
        let ou = zone_offset_minutes(name, jul.unwrap());
        oj != ou && zone_offset_minutes(name, t) == (if oj >= ou {
            oj
        } else {
            ou
        })
    } else {
        false
    }
}

/// Instants at most one probe window (24 hours) outside the computable
/// instant range; transition searches stay within these.
pub open spec fn probe_in_range(t: int) -> bool {
    INSTANT_MIN - 86400 <= t <= INSTANT_MAX + 86400
}

/// What the transition search promises: `r` lies in `(lo, hi]`, does not
/// carry `lo_off` any more, and some instant less than 60 seconds before it
/// still carried `lo_off` — the offset change is bracketed to within a
/// minute.
pub open spec fn locates_transition(name: Seq<char>, lo: int, hi: int, lo_off: int, r: int) -> bool {
    &&& lo < r <= hi
    &&& zone_offset_minutes(name, r) != lo_off
    &&& exists|l: int|
        r - 60 <= l < r && lo <= l && #[trigger] zone_offset_minutes(name, l) == lo_off
}

/// What the classifier promises about a `DstChange` for instant `t`: the
/// offset 24 hours ahead is compared first, then 24 hours back; the reported
/// delta is the offset difference in minutes and the reported instant
/// brackets the change within the probed window.
pub open spec fn dst_change_matches(name: Seq<char>, t: int, c: DstChange) -> bool {
    let off = zone_offset_minutes(name, t);
    let off_future = zone_offset_minutes(name, t + 86400);
    let off_past = zone_offset_minutes(name, t - 86400);
    if off_future != off {
        c matches DstChange::Upcoming { instant, delta_minutes }
            && locates_transition(name, t, t + 86400, off, instant as int)
            && delta_minutes == off_future - off
    } else if off_past != off {
        c matches DstChange::JustOccurred { instant, delta_minutes }
            && locates_transition(name, t - 86400, t, off_past, instant as int)
            && delta_minutes == off - off_past
    } else {
        c == DstChange::NoChange
    }
}

/// Complete time data for a single tick, derived from one (instant, zone)
/// pair and never mutated.
#[derive(Debug, Clone)]
pub struct TimeData {
    /// Year (e.g., 2025).
    pub year: i32,
    /// Month (1-12).
    pub month: u32,
    /// Day of month (1-31).
    pub day: u32,
    /// Day of week.
    pub weekday: Weekday,
    /// Hour in 12-hour format (1-12).
    pub hour12: u32,
    /// Hour in 24-hour format (0-23).
    pub hour24: u32,
    /// Minute (0-59).
    pub minute: u32,
    /// Second (0-59).
    pub second: u32,
    /// Sub-second part in nanoseconds, for smooth animations.
    pub subsec_nanos: u32,
    /// AM/PM indicator.
    pub meridiem: Meridiem,
    /// UTC offset in minutes (e.g., -480 for UTC-8).
    pub utc_offset_minutes: i32,
    /// Whether DST is currently active.
    pub is_dst: bool,
    /// DST transition information.
    pub dst_change: DstChange,
    /// Time zone abbreviation (e.g., "PST", "PDT").
    pub tz_abbrev: String,
    /// Validity of the time zone data.
    pub validity: Validity,
    /// The UTC instant (seconds since the epoch) this snapshot was built for.
    pub instant_secs: i64,
}

/// Every field of `td` is what the model says it must be for the zone named
/// `name` at instant `t` with sub-second part `nanos`.
pub open spec fn snapshot_matches(name: Seq<char>, t: int, nanos: int, td: TimeData) -> bool {
    &&& td.year == civil_date_of_day(local_day(name, t)).0
    &&& td.month == civil_date_of_day(local_day(name, t)).1
    &&& td.day == civil_date_of_day(local_day(name, t)).2
    &&& td.weekday == weekday_from_num(weekday_num(local_day(name, t)))
    &&& td.hour24 == hour24_of(name, t)
    &&& td.hour12 == hour12_from(hour24_of(name, t))
    &&& td.minute == minute_of(name, t)
    &&& td.second == second_of(name, t)
    &&& td.subsec_nanos == nanos
    &&& td.meridiem == (if hour24_of(name, t) < 12 {
        Meridiem::AM
    } else {
        Meridiem::PM
    })
    &&& td.utc_offset_minutes == zone_offset_minutes(name, t)
    &&& -1439 <= td.utc_offset_minutes <= 1439
    &&& td.is_dst == is_dst_spec(name, t)
    &&& dst_change_matches(name, t, td.dst_change)
    &&& td.tz_abbrev@ == zone_abbrev(name, t)
    &&& td.validity == Validity::Valid
    &&& td.instant_secs == t
}

/// A snapshot that was built by this engine for the zone named `name`.
pub open spec fn snapshot_wf(name: Seq<char>, td: TimeData) -> bool {
    &&& instant_in_range(td.instant_secs as int)
    &&& td.subsec_nanos < 2_000_000_000
    &&& snapshot_matches(name, td.instant_secs as int, td.subsec_nanos as int, td)
}

/// The "hh:mm:ss" text for a 12-hour time.
pub open spec fn time_text(h12: int, m: int, s: int) -> Seq<char> {
    two_digits(h12) + seq![':'] + two_digits(m) + seq![':'] + two_digits(s)
}

/// The "UTC+hh:mm" / "UTC-hh:mm" text for an offset in minutes.
pub open spec fn utc_offset_text(off: int) -> Seq<char> {
    let a = if off >= 0 {
        off
    } else {
        -off
    };
    "UTC"@ + seq![if off >= 0 {
        '+'
    } else {
        '-'
    }] + pad2(a / 60) + seq![':'] + pad2(a % 60)
}

/// The full English month name, or "Unknown" outside 1..=12.
pub open spec fn month_name(m: int) -> Seq<char> {
    if m == 1 {
        "January"@
    } else if m == 2 {
        "February"@
    } else if m == 3 {
        "March"@
    } else if m == 4 {
        "April"@
    } else if m == 5 {
        "May"@
    } else if m == 6 {
        "June"@
    } else if m == 7 {
        "July"@
    } else if m == 8 {
        "August"@
    } else if m == 9 {
        "September"@
    } else if m == 10 {
        "October"@
    } else if m == 11 {
        "November"@
    } else if m == 12 {
        "December"@
    } else {
        "Unknown"@
    }
}

/// The "Weekday, Month Day, Year" text of a date.
pub open spec fn date_text(w: Weekday, m: int, d: int, y: int) -> Seq<char> {
    weekday_text(w) + ", "@ + month_name(m) + " "@ + dec_digits(d) + ", "@ + dec_int(y)
}

/// The spoken description of a time.
pub open spec fn spoken_text(h12: int, m: int, s: int, mer: Meridiem, abbrev: Seq<char>) -> Seq<char> {
    "It is "@ + dec_digits(h12) + " "@ + dec_digits(m) + " and "@ + dec_digits(s) + " seconds "@
        + meridiem_text(mer) + ", "@ + abbrev + " Time."@
}

impl TimeData {
    /// Format the time as "hh:mm:ss" (12-hour clock).
    pub fn format_time(&self) -> (r: String)
        requires
            self.hour12 < 100,
            self.minute < 100,
            self.second < 100,
        ensures
            r@ == time_text(self.hour12 as int, self.minute as int, self.second as int),
    {
        let mut s = String::from_str("");
        proof {
            reveal_strlit("");
        }
        push_two_digits(&mut s, self.hour12);
        s.append(":");
        push_two_digits(&mut s, self.minute);
        s.append(":");
        push_two_digits(&mut s, self.second);
        proof {
            reveal_strlit(":");
            assert(s@ =~= time_text(self.hour12 as int, self.minute as int, self.second as int));
        }
        s
    }

    /// Format the UTC offset as "UTC+hh:mm" or "UTC-hh:mm".
    pub fn format_utc_offset(&self) -> (r: String)
        ensures
            r@ == utc_offset_text(self.utc_offset_minutes as int),
    {
        let off = self.utc_offset_minutes;
        let mut s = String::from_str("UTC");
        if off >= 0 {
            s.append("+");
        } else {
            s.append("-");
        }
        let a: i64 = if off < 0 {
            -(off as i64)
        } else {
            off as i64
        };
        push_pad2(&mut s, (a / 60) as u64);
        s.append(":");
        push_pad2(&mut s, (a % 60) as u64);
        proof {
            reveal_strlit("+");
            reveal_strlit("-");
            reveal_strlit(":");
            assert(s@ =~= utc_offset_text(self.utc_offset_minutes as int));
        }
        s
    }

    /// Format the date as "Weekday, Month Day, Year".
    pub fn format_date(&self) -> (r: String)
        ensures
            r@ == date_text(self.weekday, self.month as int, self.day as int, self.year as int),
    {
        let mut s = String::from_str(self.weekday.text());
        s.append(", ");
        let month = self.month;
        let name = if month == 1 {
            "January"
        } else if month == 2 {
            "February"
        } else if month == 3 {
            "March"
        } else if month == 4 {
            "April"
        } else if month == 5 {
            "May"
        } else if month == 6 {
            "June"
        } else if month == 7 {
            "July"
        } else if month == 8 {
            "August"
        } else if month == 9 {
            "September"
        } else if month == 10 {
            "October"
        } else if month == 11 {
            "November"
        } else if month == 12 {
            "December"
        } else {
            "Unknown"
        };
        s.append(name);
        s.append(" ");
        push_u64(&mut s, self.day as u64);
        s.append(", ");
        push_i64(&mut s, self.year as i64);
        proof {
            assert(s@ =~= date_text(self.weekday, self.month as int, self.day as int, self.year as int));
        }
        s
    }

    /// An accessible spoken description of the time.
    pub fn accessible_description(&self) -> (r: String)
        ensures
            r@ == spoken_text(
                self.hour12 as int,
                self.minute as int,
                self.second as int,
                self.meridiem,
                self.tz_abbrev@,
            ),
    {
        let mut s = String::from_str("It is ");
        push_u64(&mut s, self.hour12 as u64);
        s.append(" ");
        push_u64(&mut s, self.minute as u64);
        s.append(" and ");
        push_u64(&mut s, self.second as u64);
        s.append(" seconds ");
        s.append(self.meridiem.text());
        s.append(", ");
        s.append(self.tz_abbrev.as_str());
        s.append(" Time.");
        proof {
            assert(s@ =~= spoken_text(
                self.hour12 as int,
                self.minute as int,
                self.second as int,
                self.meridiem,
                self.tz_abbrev@,
            ));
        }
        s
    }
}

/// Parse a timezone name into a `ZoneId`.
///
/// Succeeds exactly for names the timezone database knows; the error text
/// names the rejected input.
pub fn parse_timezone(tz_str: &str) -> (r: Result<ZoneId, String>)
    ensures
        r is Ok <==> zone_name_ok(tz_str@),
        r matches Ok(z) ==> z@ == tz_str@,
        r matches Err(e) ==> e@ == "Invalid timezone: "@ + tz_str@,
{
    match ZoneId::from_name(tz_str) {
        Some(z) => Ok(z),
        None => {
            let msg = String::from_str("Invalid timezone: ").concat(tz_str);
            Err(msg)
        }
    }
}

/// Every timezone the database offers.
pub fn all_timezones() -> (r: Vec<ZoneId>)
    ensures
        forall|i: int| 0 <= i < r@.len() ==> zone_name_ok(#[trigger] r@[i]@),
{
    ZoneId::all()
}

/// The zones of `zones` whose names contain `query`, compared
/// ASCII-case-insensitively, in their original order.
pub fn filter_zones(zones: &Vec<ZoneId>, query: &str) -> (r: Vec<ZoneId>)
    ensures
        r@.map_values(|z: ZoneId| z@) == zones@.map_values(|z: ZoneId| z@).filter(
            |n: Seq<char>| contains_ci(n, query@),
        ),
{
    let ghost pred = |n: Seq<char>| contains_ci(n, query@);
    let q = lower_chars(query);
    let mut r: Vec<ZoneId> = Vec::new();
    let len = zones.len();
    let mut i: usize = 0;
    while i < len
        invariant
            len == zones@.len(),
            i <= len,
            q@ == lower_seq(query@),
            pred == (|n: Seq<char>| contains_ci(n, query@)),
            r@.map_values(|z: ZoneId| z@) == zones@.take(i as int).map_values(|z: ZoneId| z@).filter(pred),
        decreases len - i,
    {
        let ghost prev = zones@.take(i as int).map_values(|z: ZoneId| z@);
        let h = lower_chars(zones[i].name());
        if contains_chars(&h, &q) {
            r.push(zones[i].duplicate());
        }
        proof {
            reveal(Seq::filter);
            let cur = zones@.take(i + 1).map_values(|z: ZoneId| z@);
            assert(cur =~= prev.push(zones@[i as int]@));
            assert(prev.push(zones@[i as int]@) == prev + seq![zones@[i as int]@]);
            Seq::<Seq<char>>::filter_distributes_over_add(prev, seq![zones@[i as int]@], pred);
            assert(seq![zones@[i as int]@].drop_last() =~= Seq::<Seq<char>>::empty());
            assert(Seq::<Seq<char>>::empty().filter(pred) =~= Seq::<Seq<char>>::empty());
            if pred(zones@[i as int]@) {
                assert(seq![zones@[i as int]@].filter(pred) =~= seq![zones@[i as int]@]);
            } else {
                assert(seq![zones@[i as int]@].filter(pred) =~= Seq::<Seq<char>>::empty());
            }
            assert(r@.map_values(|z: ZoneId| z@) =~= cur.filter(pred));
        }
        i = i + 1;
    }
    proof {
        assert(zones@.take(len as int) =~= zones@);
    }
    r
}

/// Every element a filter keeps was an element of the sequence.
proof fn lemma_filter_subset<A>(s: Seq<A>, pred: spec_fn(A) -> bool, i: int)
    requires
        0 <= i < s.filter(pred).len(),
    ensures
        s.contains(s.filter(pred)[i]),
    decreases s.len(),
{
    reveal(Seq::filter);
    if s.len() > 0 {
        let rest = s.drop_last().filter(pred);
        if i < rest.len() {
            lemma_filter_subset(s.drop_last(), pred, i);
            let j = choose|j: int| 0 <= j < s.drop_last().len() && s.drop_last()[j] == rest[i];
            assert(s[j] == s.filter(pred)[i]);
        } else {
            assert(s[s.len() - 1] == s.filter(pred)[i]);
        }
    }
}

/// Search the database's timezones by name (ASCII-case-insensitive partial
/// match).
pub fn search_timezones(query: &str) -> (r: Vec<ZoneId>)
    ensures
        forall|i: int| 0 <= i < r@.len() ==> contains_ci(#[trigger] r@[i]@, query@),
        forall|i: int| 0 <= i < r@.len() ==> zone_name_ok(#[trigger] r@[i]@),
{
    let zones = all_timezones();
    let r = filter_zones(&zones, query);
    proof {
        let pred = |n: Seq<char>| contains_ci(n, query@);
        let names = zones@.map_values(|z: ZoneId| z@);
        let rnames = r@.map_values(|z: ZoneId| z@);
        assert(rnames.len() == r@.len());
        assert forall|i: int| 0 <= i < r@.len() implies contains_ci(#[trigger] r@[i]@, query@)
            && zone_name_ok(r@[i]@) by {
            assert(rnames[i] == r@[i]@);
            names.lemma_filter_pred(pred, i);
            lemma_filter_subset(names, pred, i);
            let j = choose|j: int| 0 <= j < names.len() && names[j] == rnames[i];
            assert(names[j] == zones@[j]@);
            assert(zone_name_ok(zones@[j]@));
        }
    }
    r
}

/// Epoch day number of the local calendar day, computed in executable code.
fn local_day_of(zone: &ZoneId, t: i64) -> (r: i64)
    requires
        instant_in_range(t as int),
    ensures
        r == local_day(zone@, t as int),
{
    let off = zone.offset_minutes_at(t);
    let ls: i64 = t + 60 * (off as i64);
    let days = ls.checked_div_euclid(86400);
    days.unwrap()
}

/// Compute time data for a given timezone at a specific instant, given as
/// seconds since the Unix epoch plus a sub-second part in nanoseconds.
pub fn compute_time_data_at(zone: &ZoneId, t: i64, subsec_nanos: u32) -> (td: TimeData)
    requires
        instant_in_range(t as int),
        subsec_nanos < 2_000_000_000,
    ensures
        snapshot_matches(zone@, t as int, subsec_nanos as int, td),
        snapshot_wf(zone@, td),
{
    let off = zone.offset_minutes_at(t);
    let ls: i64 = t + 60 * (off as i64);
    let days = ls.checked_div_euclid(86400).unwrap();
    let sod = ls.checked_rem_euclid(86400).unwrap();
    let hour24 = (sod / 3600) as u32;
    let minute = ((sod / 60) % 60) as u32;
    let second = (sod % 60) as u32;
    let hour12 = if hour24 == 0 {
        12
    } else if hour24 <= 12 {
        hour24
    } else {
        hour24 - 12
    };
    let meridiem = if hour24 < 12 {
        Meridiem::AM
    } else {
        Meridiem::PM
    };
    let (year, month, day, _day_of_year) = civil_date(days);
    let wn = (days + 4).checked_rem_euclid(7).unwrap();
    let weekday = match wn {
        0 => Weekday::Sun,
        1 => Weekday::Mon,
        2 => Weekday::Tue,
        3 => Weekday::Wed,
        4 => Weekday::Thu,
        5 => Weekday::Fri,
        _ => Weekday::Sat,
    };
    let (is_dst, dst_change) = detect_dst_status(zone, t);
    let tz_abbrev = zone.abbreviation_at(t);
    TimeData {
        year,
        month: month as u32,
        day: day as u32,
        weekday,
        hour12,
        hour24,
        minute,
        second,
        subsec_nanos,
        meridiem,
        utc_offset_minutes: off,
        is_dst,
        dst_change,
        tz_abbrev,
        validity: Validity::Valid,
        instant_secs: t,
    }
}

/// Compute the current time data for a given timezone, reading the clock.
///
/// The snapshot describes the clock instant, clamped into the range the
/// library computes with (a no-op for any realistic clock).
pub fn compute_time_data(zone: &ZoneId) -> (td: TimeData)
    ensures
        snapshot_wf(zone@, td),
{
    let (secs, nanos) = now_utc();
    let t = if secs < INSTANT_MIN {
        INSTANT_MIN
    } else if secs > INSTANT_MAX {
        INSTANT_MAX
    } else {
        secs
    };
    compute_time_data_at(zone, t, nanos)
}

/// Detect DST status and upcoming/recent transitions for the zone at `t`.
///
/// DST status follows the seasonal reference heuristic of `is_dst_spec`; the
/// change classification probes the offset 24 hours ahead and 24 hours back
/// and brackets the transition with a binary search when one is seen.
pub fn detect_dst_status(zone: &ZoneId, t: i64) -> (r: (bool, DstChange))
    requires
        instant_in_range(t as int),
    ensures
        r.0 == is_dst_spec(zone@, t as int),
        dst_change_matches(zone@, t as int, r.1),
{
    let current_offset = zone.offset_minutes_at(t);

    let days = local_day_of(zone, t);
    let (year, _m, _d, _o) = civil_date(days);
    let january = zone.local_instant_at(year, 1, 15, 12);
    let july = zone.local_instant_at(year, 7, 15, 12);
    let is_dst = match (january, july) {
        (Some(jan), Some(jul)) => {
            let jan_offset = zone.offset_minutes_at(jan);
            let jul_offset = zone.offset_minutes_at(jul);
            let larger = if jan_offset >= jul_offset {
                jan_offset
            } else {
                jul_offset
            };
            jan_offset != jul_offset && current_offset == larger
        }
        _ => false,
    };

    let future: i64 = t + 86400;
    let future_offset = zone.offset_minutes_at(future);
    if future_offset != current_offset {
        let transition = find_transition_time(zone, t, future, current_offset);
        let delta_minutes = future_offset - current_offset;
        return (is_dst, DstChange::Upcoming { instant: transition, delta_minutes });
    }

    let past: i64 = t - 86400;
    let past_offset = zone.offset_minutes_at(past);
    if past_offset != current_offset {
        let transition = find_transition_time(zone, past, t, past_offset);
        let delta_minutes = current_offset - past_offset;
        return (is_dst, DstChange::JustOccurred { instant: transition, delta_minutes });
    }

    (is_dst, DstChange::NoChange)
}

/// Find the approximate transition instant by binary search: narrow
/// `[low, high]` until it spans at most 60 seconds, keeping the low end on
/// the old offset and the high end off it, and return the high end — the
/// first probed instant carrying the new offset.
pub fn find_transition_time(zone: &ZoneId, low: i64, high: i64, start_offset: i32) -> (r: i64)
    requires
        probe_in_range(low as int),
        probe_in_range(high as int),
        low < high,
        zone_offset_minutes(zone@, low as int) == start_offset,
        zone_offset_minutes(zone@, high as int) != start_offset,
    ensures
        locates_transition(zone@, low as int, high as int, start_offset as int, r as int),
{
    let mut lo = low;
    let mut hi = high;
    while hi - lo > 60
        invariant
            probe_in_range(lo as int),
            probe_in_range(hi as int),
            low <= lo < hi <= high,
            zone_offset_minutes(zone@, lo as int) == start_offset,
            zone_offset_minutes(zone@, hi as int) != start_offset,
        decreases hi - lo,
    {
        let mid = lo + (hi - lo) / 2;
        let mid_offset = zone.offset_minutes_at(mid);
        if mid_offset == start_offset {
            lo = mid;
        } else {
            hi = mid;
        }
    }
    proof {
        assert(zone_offset_minutes(zone@, lo as int) == start_offset);
    }
    hi
}

} // verus!
