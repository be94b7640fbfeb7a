//! Zone identifiers and the trusted boundary to the IANA timezone database.
//!
//! Everything a zone can tell us is reduced to plain values: the offset from
//! UTC in minutes at an instant, the abbreviation at an instant, the UTC
//! instant (if any) of a local wall-clock time, and the civil date of an epoch
//! day number. Each lookup is named by an uninterpreted spec function of the
//! zone's name, so that two calls on the same arguments are known to agree.

use vstd::prelude::*;

use chrono::{Datelike, Offset, TimeZone};

verus! {

/// Lowest instant (seconds since the Unix epoch) the library computes with.
pub const INSTANT_MIN: i64 = -4_000_000_000_000;

/// Highest instant (seconds since the Unix epoch) the library computes with.
pub const INSTANT_MAX: i64 = 4_000_000_000_000;

/// Instants we compute with, with headroom so that offset and probe-window
/// arithmetic (at most a few days) stays far from `i64` overflow.
pub open spec fn instant_in_range(t: int) -> bool {
    INSTANT_MIN <= t <= INSTANT_MAX
}

/// Offset from UTC, in minutes, of the zone named `name` at UTC instant `t`
/// (seconds since the Unix epoch), as the timezone database gives it.
pub uninterp spec fn zone_offset_minutes(name: Seq<char>, t: int) -> int;

/// Abbreviation (for example "EST" or "+0530") of the zone named `name` at
/// UTC instant `t`, as the timezone database gives it.
pub uninterp spec fn zone_abbrev(name: Seq<char>, t: int) -> Seq<char>;

/// UTC instant of the local wall-clock time `y-mo-d h:00:00` in the zone
/// named `name`: `Some` when that local time exists unambiguously, `None`
/// when it falls in a daylight-saving gap or overlap or outside the supported
/// calendar range.
pub uninterp spec fn zone_local_instant(name: Seq<char>, y: int, mo: int, d: int, h: int) -> Option<int>;

/// Civil date `(year, month, day, day_of_year)` of the day that is `days`
/// whole days after 1970-01-01 in the proleptic Gregorian calendar.
pub uninterp spec fn civil_date_of_day(days: int) -> (int, int, int, int);

/// Whether `name` is a zone identifier the timezone database knows.
pub uninterp spec fn zone_name_ok(name: Seq<char>) -> bool;

/// A timezone identifier, resolved once against the timezone database.
///
/// The stored `tz` handle always corresponds to `name`; both are only ever
/// set together by the trusted constructors in this module.
#[derive(Debug)]
pub struct ZoneId {
    name: String,
    tz: chrono_tz::Tz,
}

#[verifier::external_type_specification]
#[verifier::external_body]
pub struct ExTz(chrono_tz::Tz);

impl View for ZoneId {
    type V = Seq<char>;

    closed spec fn view(&self) -> Seq<char> {
        self.name@
    }
}

impl ZoneId {
    /// The zone's IANA name, for example "America/New_York".
    pub fn name(&self) -> (r: &str)
        ensures
            r@ == self@,
    {
        self.name.as_str()
    }

    /// Relies on `chrono_tz::Tz::from_str`: resolves an IANA name against the
    /// database's name table, succeeding exactly for known names.
    #[verifier::external_body]
    pub fn from_name(name: &str) -> (r: Option<ZoneId>)
        ensures
            r is Some <==> zone_name_ok(name@),
            r matches Some(z) ==> z@ == name@,
    {
        match name.parse::<chrono_tz::Tz>() {
            Ok(tz) => Some(ZoneId { name: String::from(name), tz }),
            Err(_) => None,
        }
    }

    /// Relies on `chrono_tz`'s name table holding "UTC".
    #[verifier::external_body]
    pub fn utc() -> (r: ZoneId)
        ensures
            r@ == "UTC"@,
    {
        ZoneId { name: String::from("UTC"), tz: chrono_tz::Tz::UTC }
    }

    /// An owned copy of this zone identifier.
    ///
    /// Relies on `String::clone`; the zone handle itself is plain copyable
    /// data.
    #[verifier::external_body]
    pub fn duplicate(&self) -> (r: ZoneId)
        ensures
            r@ == self@,
    {
        ZoneId { name: self.name.clone(), tz: self.tz }
    }

    /// Relies on `chrono_tz::Tz::offset_from_utc_datetime`, which is total
    /// over `i64` timestamps and deterministic, and whose offset (base plus
    /// daylight-saving part) always fits a `chrono::FixedOffset`, so it is
    /// strictly within one day; instants `chrono` cannot represent resolve to
    /// offset 0. The result is converted from seconds to whole minutes,
    /// truncating toward zero as the few historic sub-minute offsets demand.
    #[verifier::external_body]
    pub fn offset_minutes_at(&self, t: i64) -> (r: i32)
        ensures
            r as int == zone_offset_minutes(self@, t as int),
            -1439 <= r as int <= 1439,
    {
        match chrono::DateTime::from_timestamp(t, 0) {
            Some(dt) => {
                let off = self.tz.offset_from_utc_datetime(&dt.naive_utc());
                off.fix().local_minus_utc() / 60
            }
            None => 0,
        }
    }

    /// Relies on `chrono_tz`'s offset carrying the abbreviation of its
    /// timespan (`TzOffset` displays the abbreviation when the database names
    /// one, else a numeric `+hhmm` form), a deterministic function of zone
    /// and instant; instants `chrono` cannot represent resolve to "UTC".
    #[verifier::external_body]
    pub fn abbreviation_at(&self, t: i64) -> (r: String)
        ensures
            r@ == zone_abbrev(self@, t as int),
    {
        match chrono::DateTime::from_timestamp(t, 0) {
            Some(dt) => {
                let off = self.tz.offset_from_utc_datetime(&dt.naive_utc());
                format!("{}", off)
            }
            None => String::from("UTC"),
        }
    }

    /// Relies on `chrono::TimeZone::with_ymd_and_hms` on a `chrono_tz::Tz`:
    /// resolves a local wall-clock time through the database, yielding a
    /// single UTC instant unless the local time is skipped or repeated by an
    /// offset change or lies outside the supported calendar range.
    #[verifier::external_body]
    pub fn local_instant_at(&self, y: i32, mo: u8, d: u8, h: u8) -> (r: Option<i64>)
        ensures
            r is Some <==> zone_local_instant(self@, y as int, mo as int, d as int, h as int) is Some,
            r matches Some(u) ==> zone_local_instant(self@, y as int, mo as int, d as int, h as int) == Some(u as int),
    {
        self.tz
            .with_ymd_and_hms(y, mo as u32, d as u32, h as u32, 0, 0)
            .single()
            .map(|dt| dt.timestamp())
    }

    /// Relies on `chrono_tz::TZ_VARIANTS` (every zone of the database) and
    /// `Tz::name`, whose names the database's name table resolves back.
    #[verifier::external_body]
    pub fn all() -> (r: Vec<ZoneId>)
        ensures
            forall|i: int| 0 <= i < r@.len() ==> zone_name_ok(#[trigger] r@[i]@),
    {
        chrono_tz::TZ_VARIANTS
            .iter()
            .map(|tz| ZoneId { name: String::from(tz.name()), tz: *tz })
            .collect()
    }
}

/// Relies on `chrono::Datelike` (`year`, `month`, `day`, `ordinal`) of the
/// UTC datetime of the given epoch day number: the civil date in the
/// proleptic Gregorian calendar, with month in 1..=12, day in 1..=31 and
/// day-of-year in 1..=366 as `chrono` documents. The argument is converted
/// to a timestamp (`days * 86400`) to make the call; day numbers `chrono`
/// cannot represent resolve to the epoch date.
#[verifier::external_body]
pub fn civil_date(days: i64) -> (r: (i32, u8, u8, u16))
    ensures
        (r.0 as int, r.1 as int, r.2 as int, r.3 as int) == civil_date_of_day(days as int),
        1 <= r.1 <= 12,
        1 <= r.2 <= 31,
        1 <= r.3 <= 366,
{
    let dt = days
        .checked_mul(86400)
        .and_then(|secs| chrono::DateTime::from_timestamp(secs, 0));
    match dt {
        Some(dt) => (dt.year(), dt.month() as u8, dt.day() as u8, dt.ordinal() as u16),
        None => (1970, 1, 1, 1),
    }
}

/// Relies on `chrono::Utc::now` and `timestamp_subsec_nanos`: seconds since
/// the Unix epoch and the sub-second nanoseconds, which `chrono`'s time
/// invariant keeps below 2,000,000,000 even across a leap second.
#[verifier::external_body]
pub fn now_utc() -> (r: (i64, u32))
    ensures
        r.1 < 2_000_000_000,
{
    let now = chrono::Utc::now();
    (now.timestamp(), now.timestamp_subsec_nanos())
}

} // verus!
