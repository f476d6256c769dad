//! Calendar dates and times of day as plain integers.
//!
//! A date is the number of its day in the proleptic Gregorian calendar, where
//! day 1 is 1 January of the year 1, a Monday. A time of day is a number of
//! seconds after local midnight.

use vstd::prelude::*;

verus! {

/// Day number of the earliest date that can be represented (1 January 262144 BCE).
pub const MIN_DAY: i32 = -95_746_129;

/// Day number of the latest date that can be represented (31 December 262142 CE).
pub const MAX_DAY: i32 = 95_745_399;

/// Day number of 1 January 1970.
pub const UNIX_EPOCH_DAY: i32 = 719_163;

/// Seconds in a civil day.
pub const SECONDS_PER_DAY: i64 = 86_400;

/// Seconds in seven civil days.
pub const SECONDS_PER_WEEK: i64 = 604_800;

/// Day of the week.
#[derive(Clone, Copy, Debug, PartialEq, Eq, Structural)]
pub enum Weekday {
    Mon,
    Tue,
    Wed,
    Thu,
    Fri,
    Sat,
    Sun,
}

impl Weekday {
    /// Days that this weekday lies after Monday.
    pub open spec fn spec_num_days_from_monday(self) -> int {
        match self {
            Weekday::Mon => 0,
            Weekday::Tue => 1,
            Weekday::Wed => 2,
            Weekday::Thu => 3,
            Weekday::Fri => 4,
            Weekday::Sat => 5,
            Weekday::Sun => 6,
        }
    }

    /// Days that this weekday lies after Monday, from 0 to 6.
    pub fn num_days_from_monday(self) -> (res: u32)
        ensures
            res == self.spec_num_days_from_monday(),
            res <= 6,
    {
        match self {
            Weekday::Mon => 0,
            Weekday::Tue => 1,
            Weekday::Wed => 2,
            Weekday::Thu => 3,
            Weekday::Fri => 4,
            Weekday::Sat => 5,
            Weekday::Sun => 6,
        }
    }
}

/// The weekday that lies `n % 7` days after Monday.
pub open spec fn weekday_from_monday(n: int) -> Weekday {
    let k = n % 7;
    if k == 0 {
        Weekday::Mon
    } else if k == 1 {
        Weekday::Tue
    } else if k == 2 {
        Weekday::Wed
    } else if k == 3 {
        Weekday::Thu
    } else if k == 4 {
        Weekday::Fri
    } else if k == 5 {
        Weekday::Sat
    } else {
        Weekday::Sun
    }
}

/// The weekday of the day with the given number. Day 1 is a Monday.
pub open spec fn weekday_of(day: int) -> Weekday {
    weekday_from_monday(day - 1)
}

/// Whether `day` is the number of a date that can be represented.
pub open spec fn day_in_range(day: int) -> bool {
    MIN_DAY <= day <= MAX_DAY
}

/// A calendar date without a timezone.
#[derive(Clone, Copy, Debug, PartialEq, Eq, Structural)]
pub struct Date {
    /// Number of the day, counted from 1 January of the year 1 as day 1.
    pub day: i32,
}

impl View for Date {
    type V = int;

    open spec fn view(&self) -> int {
        self.day as int
    }
}

impl Date {
    /// The date lies in the supported range.
    pub open spec fn wf(&self) -> bool {
        day_in_range(self.day as int)
    }

    /// The date with the given day number, if it lies in the supported range.
    pub fn from_num_days_from_ce(day: i32) -> (res: Option<Date>)
        ensures
            res is Some <==> day_in_range(day as int),
            res matches Some(d) ==> d.day == day && d.wf(),
    {
        if MIN_DAY <= day && day <= MAX_DAY {
            Some(Date { day })
        } else {
            None
        }
    }

    /// Number of the day, counted from 1 January of the year 1 as day 1.
    pub fn num_days_from_ce(&self) -> (res: i32)
        ensures
            res == self.day,
    {
        self.day
    }

    /// The date `days` days later, or `None` where that date cannot be represented.
    pub fn checked_add_days(&self, days: u64) -> (res: Option<Date>)
        requires
            self.wf(),
        ensures
            res is Some <==> day_in_range(self.day + days),
            res matches Some(d) ==> d.day == self.day + days && d.wf(),
    {
        if days > 200_000_000 {
            return None;
        }
        let target: i64 = self.day as i64 + days as i64;
        if target <= MAX_DAY as i64 {
            Some(Date { day: target as i32 })
        } else {
            None
        }
    }

    /// The weekday of this date.
    pub fn weekday(&self) -> (res: Weekday)
        ensures
            res == weekday_of(self.day as int),
    {
        // Shift by a multiple of seven that makes the dividend positive.
        let shifted: i64 = self.day as i64 - 1 + 2_147_483_653;
        assert(2_147_483_653int == 7 * 306_783_379int);
        assert(shifted % 7 == (self.day - 1) % 7) by {
            vstd::arithmetic::div_mod::lemma_mod_multiples_vanish(306_783_379, self.day - 1, 7);
        }
        let k: i64 = shifted % 7;
        if k == 0 {
            Weekday::Mon
        } else if k == 1 {
            Weekday::Tue
        } else if k == 2 {
            Weekday::Wed
        } else if k == 3 {
            Weekday::Thu
        } else if k == 4 {
            Weekday::Fri
        } else if k == 5 {
            Weekday::Sat
        } else {
            Weekday::Sun
        }
    }

    /// Whole weeks from `earlier` to this date, rounded towards zero.
    pub open spec fn spec_weeks_since(&self, earlier: &Date) -> int {
        let diff = self.day - earlier.day;
        if diff >= 0 {
            diff / 7
        } else {
            -((-diff) / 7)
        }
    }

    /// Whole weeks from `earlier` to this date, rounded towards zero.
    pub fn weeks_since(&self, earlier: &Date) -> (res: i64)
        ensures
            res == self.spec_weeks_since(earlier),
    {
        let diff: i64 = self.day as i64 - earlier.day as i64;
        if diff >= 0 {
            diff / 7
        } else {
            -((-diff) / 7)
        }
    }
}

/// A time of day without a timezone, in whole seconds.
#[derive(Clone, Copy, Debug, PartialEq, Eq, Structural)]
pub struct TimeOfDay {
    /// Seconds after midnight.
    pub secs: u32,
}

impl TimeOfDay {
    /// The time lies within one civil day.
    pub open spec fn wf(&self) -> bool {
        self.secs < SECONDS_PER_DAY
    }

    /// The time `secs` seconds after midnight, if that is less than one day.
    pub fn from_num_seconds_from_midnight(secs: u32) -> (res: Option<TimeOfDay>)
        ensures
            res is Some <==> secs < SECONDS_PER_DAY,
            res matches Some(t) ==> t.secs == secs && t.wf(),
    {
        if secs < 86_400 {
            Some(TimeOfDay { secs })
        } else {
            None
        }
    }

    /// Seconds after midnight.
    pub fn num_seconds_from_midnight(&self) -> (res: u32)
        ensures
            res == self.secs,
    {
        self.secs
    }
}

/// Seconds between the Unix epoch and the given local date and time, as if
/// the local clock ran on UTC.
pub open spec fn local_seconds(day: int, secs: int) -> int {
    (day - UNIX_EPOCH_DAY) * SECONDS_PER_DAY + secs
}

/// The day number of the date on which a local clock that shows
/// `local_secs` seconds since the Unix epoch stands.
pub open spec fn day_of_local_seconds(local_secs: int) -> int {
    local_secs / (SECONDS_PER_DAY as int) + UNIX_EPOCH_DAY
}

/// The local date is recovered from the local seconds of any time on it.
pub proof fn lemma_day_of_local_seconds(day: int, secs: int)
    requires
        0 <= secs < SECONDS_PER_DAY,
    ensures
        day_of_local_seconds(local_seconds(day, secs)) == day,
{
    let d = day - UNIX_EPOCH_DAY;
    vstd::arithmetic::div_mod::lemma_fundamental_div_mod_converse(
        d * 86_400 + secs,
        86_400,
        d,
        secs,
    );
}

} // verus!
