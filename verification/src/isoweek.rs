//! ISO 8601 weeks: a year and a week number, with Monday as the first day.
//!
//! Which weeks a year has, and on which date each starts, is the calendar's
//! business: both are asked of `chrono` and referred to by name.

use crate::calendar::{weekday_of, Date, Weekday};
use chrono::Datelike;
use vstd::prelude::*;

verus! {

/// A week of the ISO 8601 week-numbering calendar.
#[derive(Clone, Copy, Debug, PartialEq, Eq, Structural)]
pub struct IsoWeek {
    /// The week-numbering year, which near 1 January may differ from the calendar year.
    pub year: i32,
    /// The number of the week in its year, starting from 1.
    pub week: u32,
}

impl IsoWeek {
    /// Whether this week comes before `other`: an earlier year, or the same
    /// year and a smaller week number.
    pub open spec fn spec_lt(&self, other: &IsoWeek) -> bool {
        self.year < other.year || (self.year == other.year && self.week < other.week)
    }

    /// Whether this week comes before `other`.
    pub fn lt(&self, other: &IsoWeek) -> (res: bool)
        ensures
            res == self.spec_lt(other),
    {
        self.year < other.year || (self.year == other.year && self.week < other.week)
    }
}

/// Day number of the Monday of the given ISO week, or `None` where the year
/// has no week of that number or the date cannot be represented.
pub uninterp spec fn iso_week_monday(year: int, week: int) -> Option<int>;

/// Year and number of the ISO week that holds the day with the given number.
pub uninterp spec fn iso_week_of_day(day: int) -> (int, int);

/// The day number of an optional date.
pub open spec fn spec_day(date: Option<Date>) -> Option<int> {
    match date {
        Some(d) => Some(d.day as int),
        None => None,
    }
}

/// The earliest week-numbering year that can hold a date of the calendar:
/// the year before the calendar's first.
pub const MIN_WEEK_YEAR: i32 = -262_144;

/// The latest week-numbering year that can hold a date of the calendar: the
/// year after the calendar's last.
pub const MAX_WEEK_YEAR: i32 = 262_143;

/// Whether a week-numbering year can hold a date of the calendar.
pub open spec fn week_year_in_range(year: int) -> bool {
    MIN_WEEK_YEAR <= year <= MAX_WEEK_YEAR
}

/// Day number of the Monday of the given ISO week. There is none for a year
/// that can hold no date of the calendar, for a week that the year does not
/// have, and for a Monday that cannot be represented.
pub open spec fn iso_week_start(year: int, week: int) -> Option<int> {
    if week_year_in_range(year) {
        iso_week_monday(year, week)
    } else {
        None
    }
}

/// Asks `chrono::NaiveDate::from_isoywd_opt` for the Monday of an ISO week
/// and reads its day number with `chrono::Datelike::num_days_from_ce`. The
/// year must be one that can hold a date of the calendar: the outside function
/// computes with the neighbouring years.
///
/// Trusted: the outcome depends on the two arguments alone; a date that is
/// returned is a Monday within the supported range.
#[verifier::external_body]
pub(crate) fn monday_of_iso_week(year: i32, week: u32) -> (res: Option<Date>)
    requires
        week_year_in_range(year as int),
    ensures
        spec_day(res) == iso_week_monday(year as int, week as int),
        res matches Some(d) ==> d.wf() && weekday_of(d.day as int) == Weekday::Mon,
{
    let monday = chrono::NaiveDate::from_isoywd_opt(year, week, chrono::Weekday::Mon)?;
    Some(Date { day: monday.num_days_from_ce() })
}

/// Finds the Monday of an ISO week. A year that can hold no date of the
/// calendar has no weeks here.
pub fn monday_of_week(year: i32, week: u32) -> (res: Option<Date>)
    ensures
        spec_day(res) == iso_week_start(year as int, week as int),
        res matches Some(d) ==> d.wf() && weekday_of(d.day as int) == Weekday::Mon,
{
    if year < MIN_WEEK_YEAR || year > MAX_WEEK_YEAR {
        return None;
    }
    monday_of_iso_week(year, week)
}

/// Asks `chrono::Datelike::iso_week` for the ISO week of the date that
/// `chrono::NaiveDate::from_num_days_from_ce_opt` makes of a day number.
///
/// Trusted: the outcome depends on the day alone; the week number lies
/// between 1 and 53.
#[verifier::external_body]
pub(crate) fn iso_week_of_date(date: Date) -> (res: IsoWeek)
    requires
        date.wf(),
    ensures
        (res.year as int, res.week as int) == iso_week_of_day(date.day as int),
        1 <= res.week,
        res.week <= 53,
{
    let week = chrono::NaiveDate::from_num_days_from_ce_opt(date.day).unwrap().iso_week();
    IsoWeek { year: week.year(), week: week.week() }
}

} // verus!
