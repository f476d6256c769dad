//! Timezone-aware instants and the conversion of local times into them.
//!
//! The timezone database is not part of this library: the conversion of a
//! local date and time in a named zone is delegated to `chrono` and
//! `chrono-tz`, and its outcome is referred to by name in the contracts.

use crate::calendar::{
    day_in_range, day_of_local_seconds, lemma_day_of_local_seconds, local_seconds, Date,
    SECONDS_PER_DAY,
};
use chrono::Offset;
use vstd::prelude::*;

verus! {

/// An instant together with the UTC offset that is in force in its zone.
#[derive(Clone, Copy, Debug, PartialEq, Eq, Structural)]
pub struct ZonedTimestamp {
    /// Seconds since 1 January 1970, 00:00:00 UTC.
    pub utc_secs: i64,
    /// Seconds that the local clock is ahead of UTC.
    pub offset_secs: i32,
}

impl ZonedTimestamp {
    /// The offset is less than one day in either direction.
    pub open spec fn wf(&self) -> bool {
        offset_in_range(self.offset_secs as int)
    }

    /// Seconds since the Unix epoch that the local clock shows.
    pub open spec fn local_secs(&self) -> int {
        self.utc_secs + self.offset_secs
    }

    /// Day number of the local calendar date.
    pub open spec fn local_day(&self) -> int {
        day_of_local_seconds(self.local_secs())
    }

    /// The local calendar date, or `None` where it lies outside the supported range.
    pub fn date_naive(&self) -> (res: Option<Date>)
        ensures
            res is Some <==> day_in_range(self.local_day()),
            res matches Some(d) ==> d.day == self.local_day() && d.wf(),
    {
        let local: i128 = self.utc_secs as i128 + self.offset_secs as i128;
        // Shift by a whole number of days that makes the dividend positive.
        let shift_days: i128 = 106_751_991_167_302;
        let shifted: i128 = local + 9_223_372_036_854_892_800;
        assert(shift_days * 86_400 == 9_223_372_036_854_892_800);
        let day: i128 = shifted / 86_400 - shift_days + 719_163;
        proof {
            vstd::arithmetic::div_mod::lemma_div_multiples_vanish_fancy(
                shift_days as int,
                0,
                86_400,
            );
            vstd::arithmetic::div_mod::lemma_fundamental_div_mod(local as int, 86_400);
            let q = (local as int) / 86_400;
            let r = (local as int) % 86_400;
            vstd::arithmetic::div_mod::lemma_fundamental_div_mod_converse(
                shifted as int,
                86_400,
                q + shift_days,
                r,
            );
        }
        if -95_746_129 <= day && day <= 95_745_399 {
            Some(Date { day: day as i32 })
        } else {
            None
        }
    }

    /// The local calendar date of an instant whose date lies in the
    /// supported range.
    pub fn local_date(&self) -> (res: Date)
        requires
            day_in_range(self.local_day()),
        ensures
            res.day == self.local_day(),
            res.wf(),
    {
        self.date_naive().unwrap()
    }
}

/// What a local date and time stands for in a timezone.
#[derive(Clone, Copy, Debug, PartialEq, Eq, Structural)]
pub enum LocalResolution {
    /// No instant has this local time: it falls into a gap, the zone is
    /// unknown, or the instant cannot be represented.
    Absent,
    /// Exactly one instant has this local time.
    Single(ZonedTimestamp),
    /// Two instants have this local time, given as earlier and later.
    Ambiguous(ZonedTimestamp, ZonedTimestamp),
}

/// Whether the timezone database knows a zone with this identifier.
pub uninterp spec fn timezone_exists(timezone: Seq<char>) -> bool;

/// The outcome of converting the local time `secs` seconds after midnight on
/// the day numbered `day` in the zone named `timezone`.
pub uninterp spec fn local_time_resolution(timezone: Seq<char>, day: int, secs: int) -> LocalResolution;

/// Looks `timezone` up with `chrono_tz::Tz::from_str`.
///
/// Trusted: the result says whether that lookup succeeds, which depends on
/// the identifier alone.
#[verifier::external_body]
pub(crate) fn timezone_is_known(timezone: &str) -> (res: bool)
    ensures
        res == timezone_exists(timezone@),
{
    timezone.parse::<chrono_tz::Tz>().is_ok()
}

/// Converts a local date and time with `chrono::NaiveDateTime::and_local_timezone`
/// in the zone that `chrono_tz::Tz::from_str` finds under `timezone`.
///
/// Trusted: the outcome depends on the three arguments alone; an unknown
/// zone gives `Absent`; a single instant that is returned shows the requested
/// local time on its local clock, and its offset is less than one day.
#[verifier::external_body]
pub(crate) fn resolve_local(timezone: &str, day: i32, secs: u32) -> (res: LocalResolution)
    requires
        day_in_range(day as int),
        secs < SECONDS_PER_DAY,
    ensures
        res == local_time_resolution(timezone@, day as int, secs as int),
        !timezone_exists(timezone@) ==> res is Absent,
        res matches LocalResolution::Single(t) ==> shows_local_time(t, day as int, secs as int),
{
    let Ok(tz) = timezone.parse::<chrono_tz::Tz>() else { return LocalResolution::Absent };
    let Some(date) = chrono::NaiveDate::from_num_days_from_ce_opt(day) else { return LocalResolution::Absent };
    let Some(time) = chrono::NaiveTime::from_num_seconds_from_midnight_opt(secs, 0) else { return LocalResolution::Absent };
    let local = date.and_time(time).and_local_timezone(tz);
    match local.map(|t| ZonedTimestamp { utc_secs: t.timestamp(), offset_secs: t.offset().fix().local_minus_utc() }) {
        chrono::LocalResult::None => LocalResolution::Absent,
        chrono::LocalResult::Single(t) => LocalResolution::Single(t),
        chrono::LocalResult::Ambiguous(a, b) => LocalResolution::Ambiguous(a, b),
    }
}

/// Whether a UTC offset in seconds is less than one day in either direction.
pub open spec fn offset_in_range(offset_secs: int) -> bool {
    -SECONDS_PER_DAY < offset_secs < SECONDS_PER_DAY
}

/// Whether an instant shows the local time `secs` seconds after midnight
/// on the day numbered `day`, with an offset of less than one day.
pub open spec fn shows_local_time(t: ZonedTimestamp, day: int, secs: int) -> bool {
    t.wf() && t.local_secs() == local_seconds(day, secs)
}

/// The instant that a resolution stands for, if it is exactly one: a gap and
/// an ambiguous local time both give `None`, so that no occurrence is moved or
/// guessed.
pub open spec fn spec_single(resolution: LocalResolution) -> Option<ZonedTimestamp> {
    match resolution {
        LocalResolution::Single(t) => Some(t),
        _ => None,
    }
}

/// The one instant at which the clocks of the zone named `timezone` show
/// `secs` seconds after midnight on the day numbered `day`, if there is
/// exactly one.
pub open spec fn resolved_instant(timezone: Seq<char>, day: int, secs: int) -> Option<
    ZonedTimestamp,
> {
    match spec_single(local_time_resolution(timezone, day, secs)) {
        Some(t) => if shows_local_time(t, day, secs) {
            Some(t)
        } else {
            None
        },
        None => None,
    }
}

/// The instant that a resolution stands for, if it is exactly one.
pub fn single(resolution: LocalResolution) -> (res: Option<ZonedTimestamp>)
    ensures
        res == spec_single(resolution),
{
    match resolution {
        LocalResolution::Single(t) => Some(t),
        LocalResolution::Ambiguous(_, _) => None,
        LocalResolution::Absent => None,
    }
}

/// Finds the one instant at which the clocks of the zone named `timezone`
/// show the given local date and time. An unknown zone has none.
pub fn resolve_single(timezone: &str, day: i32, secs: u32) -> (res: Option<ZonedTimestamp>)
    requires
        day_in_range(day as int),
        secs < SECONDS_PER_DAY,
    ensures
        res == resolved_instant(timezone@, day as int, secs as int),
        !timezone_exists(timezone@) ==> res is None,
{
    single(resolve_local(timezone, day, secs))
}

/// An instant that is resolved for a local date and time falls on that
/// date in its zone.
pub proof fn lemma_resolved_instant_date(timezone: Seq<char>, day: int, secs: int)
    requires
        0 <= secs < SECONDS_PER_DAY,
    ensures
        resolved_instant(timezone, day, secs) matches Some(t) ==> t.wf() && t.local_day() == day,
{
    lemma_day_of_local_seconds(day, secs);
}

} // verus!
