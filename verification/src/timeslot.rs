//! Timeslots: the rules for creating one, and the occurrence indices that an
//! interval of ISO weeks covers.

use crate::auth::UserId;
use crate::calendar::{weekday_of, Date, TimeOfDay, Weekday};
use crate::isoweek::{iso_week_start, monday_of_week, IsoWeek};
use crate::model::{spec_convert_ts, DbTime, DbTimerange, Student, TimeSlot, WebTimeSlot};
use core::ops::Range;
use vstd::prelude::*;

verus! {

/// Index of the first occurrence that an interval starting on the day
/// `start_day` covers: none before the timeslot's first date counts, and from
/// then on the whole weeks since the first date.
pub open spec fn range_start_index(timeslot: &WebTimeSlot, start_day: int) -> int {
    if start_day < timeslot.timerange.start.day {
        0
    } else {
        (start_day - timeslot.timerange.start.day) / 7
    }
}

/// Index of the last occurrence that an interval ending on the day `end_day`
/// covers: the whole weeks from the timeslot's first date to the end of the
/// interval or the timeslot's last date, whichever is earlier.
pub open spec fn range_end_index(timeslot: &WebTimeSlot, end_day: int) -> int {
    if end_day > timeslot.timerange.end.day {
        (timeslot.timerange.end.day - timeslot.timerange.start.day) / 7
    } else {
        (end_day - timeslot.timerange.start.day) / 7
    }
}

/// Whether an interval of days ends before the timeslot begins.
pub open spec fn ends_before_timeslot(timeslot: &WebTimeSlot, end_day: int) -> bool {
    end_day < timeslot.timerange.start.day
}

/// Maps an interval of dates, both inclusive, to the occurrence indices it
/// covers. The result holds the first and the last index: its `end` is
/// inclusive, so it stands for `end - start + 1` occurrences.
///
/// An interval that ends before the timeslot's first date covers nothing and
/// gives `None`. The first index must not exceed the last, which holds whenever
/// the interval starts neither after its own end nor after the timeslot's last
/// date.
pub fn index_range_for_dates(timeslot: &WebTimeSlot, start: Date, end: Date) -> (res: Option<
    Range<u32>,
>)
    requires
        timeslot.wf(),
        start.wf(),
        end.wf(),
        ends_before_timeslot(timeslot, end.day as int) || range_start_index(
            timeslot,
            start.day as int,
        ) <= range_end_index(timeslot, end.day as int),
    ensures
        res is None <==> ends_before_timeslot(timeslot, end.day as int),
        res matches Some(r) ==> {
            &&& r.start == range_start_index(timeslot, start.day as int)
            &&& r.end == range_end_index(timeslot, end.day as int)
            &&& r.start <= r.end
        },
{
    if end.day < timeslot.timerange.start.day {
        return None;
    }
    let start_index: u32 = if start.day < timeslot.timerange.start.day {
        0
    } else {
        start.weeks_since(&timeslot.timerange.start) as u32
    };
    let end_index: u32 = if end.day > timeslot.timerange.end.day {
        timeslot.timerange.end.weeks_since(&timeslot.timerange.start) as u32
    } else {
        end.weeks_since(&timeslot.timerange.start) as u32
    };
    Some(Range { start: start_index, end: end_index })
}

/// An interval that begins no later than it ends, and no later than the
/// timeslot's last date, never has its first index above its last.
pub proof fn lemma_index_range_is_ordered(timeslot: &WebTimeSlot, start_day: int, end_day: int)
    requires
        timeslot.wf(),
        start_day <= end_day,
        start_day <= timeslot.timerange.end.day,
        !ends_before_timeslot(timeslot, end_day),
    ensures
        0 <= range_start_index(timeslot, start_day) <= range_end_index(timeslot, end_day),
{
}

/// The indices of a range are those of the occurrences that it is meant
/// for: an occurrence whose date lies in the interval and in the timeslot's
/// range has its index in the range, and the date of every index in the range
/// lies no later than the end of the interval and of the timeslot, and less
/// than a week before the start of the interval.
pub proof fn lemma_index_range_covers_interval(
    timeslot: &WebTimeSlot,
    start_day: int,
    end_day: int,
    index: int,
)
    requires
        timeslot.wf(),
        !ends_before_timeslot(timeslot, end_day),
        0 <= index,
    ensures
        start_day <= crate::entry::occurrence_day(timeslot, index) <= end_day
            && crate::entry::occurrence_day(timeslot, index) <= timeslot.timerange.end.day
            ==> range_start_index(timeslot, start_day) <= index <= range_end_index(
            timeslot,
            end_day,
        ),
        range_start_index(timeslot, start_day) <= index <= range_end_index(timeslot, end_day) ==> {
            &&& crate::entry::occurrence_day(timeslot, index) <= end_day
            &&& crate::entry::occurrence_day(timeslot, index) <= timeslot.timerange.end.day
            &&& crate::entry::occurrence_day(timeslot, index) > start_day - 7
        },
{
}

/// The occurrence indices that an interval of ISO weeks covers, from the
/// Monday of its first week to the Sunday of its last.
pub open spec fn index_range_for_weeks(timeslot: &WebTimeSlot, range: Range<IsoWeek>) -> Option<
    (int, int),
> {
    match (
        iso_week_start(range.start.year as int, range.start.week as int),
        iso_week_start(range.end.year as int, range.end.week as int),
    ) {
        (Some(start_day), Some(end_monday)) => {
            let end_day = end_monday + 6;
            let first = range_start_index(timeslot, start_day);
            let last = range_end_index(timeslot, end_day);
            if end_day > crate::calendar::MAX_DAY || ends_before_timeslot(timeslot, end_day)
                || first > last {
                None
            } else {
                Some((first, last))
            }
        },
        _ => None,
    }
}

/// Maps an interval of ISO weeks, both inclusive, to the occurrence indices
/// it covers. The result holds the first and the last index: its `end` is
/// inclusive, so it stands for `end - start + 1` occurrences.
///
/// The interval runs from the Monday of `range.start` to the Sunday of
/// `range.end`. There is no result where a week does not exist, where the
/// interval ends before the timeslot's first date, or where the first index
/// would exceed the last, as it does for an interval that starts in a later
/// week than the timeslot's last date.
pub fn get_index_range_timeslot(timeslot: &WebTimeSlot, range: Range<IsoWeek>) -> (res: Option<
    Range<u32>,
>)
    requires
        timeslot.wf(),
    ensures
        res is Some <==> index_range_for_weeks(timeslot, range) is Some,
        res matches Some(r) ==> index_range_for_weeks(timeslot, range) == Some(
            (r.start as int, r.end as int),
        ) && r.start <= r.end,
{
    let start = match monday_of_week(range.start.year, range.start.week) {
        Some(d) => d,
        None => {
            return None;
        },
    };
    let end_monday = match monday_of_week(range.end.year, range.end.week) {
        Some(d) => d,
        None => {
            return None;
        },
    };
    let end = match end_monday.checked_add_days(6) {
        Some(d) => d,
        None => {
            return None;
        },
    };
    if end.day < timeslot.timerange.start.day {
        return None;
    }
    let first: i64 = if start.day < timeslot.timerange.start.day {
        0
    } else {
        start.weeks_since(&timeslot.timerange.start)
    };
    let last: i64 = if end.day > timeslot.timerange.end.day {
        timeslot.timerange.end.weeks_since(&timeslot.timerange.start)
    } else {
        end.weeks_since(&timeslot.timerange.start)
    };
    if first > last {
        return None;
    }
    index_range_for_dates(timeslot, start, end)
}

/// Number of occurrences that a range of indices with an inclusive `end`
/// stands for.
pub fn expected_entry_count(range: &Range<u32>) -> (res: u64)
    requires
        range.start <= range.end,
    ensures
        res == range.end - range.start + 1,
{
    (range.end - range.start) as u64 + 1
}

/// What a request to create a timeslot carries.
#[derive(Debug)]
pub struct TimeslotCreate {
    pub students: Vec<Student>,
    pub subject: String,
    pub weekday: Weekday,
    pub time: Range<TimeOfDay>,
    pub timerange: Range<Date>,
    pub timezone: String,
}

/// Why a timeslot cannot be created.
#[derive(Debug, Clone, Copy, PartialEq, Eq, Structural)]
pub enum TimeslotCreateError {
    TimerangeStartShouldBeWeekday,
    TimerangeStartShouldBeBeforeEnd,
    StartTimeShouldBeBeforeEndTime,
}

impl TimeslotCreateError {
    /// The HTTP status that reports this error: 422 for each.
    pub fn status_code(&self) -> (res: u16)
        ensures
            res == 422,
    {
        422
    }

    /// The text that reports this error.
    pub fn message(&self) -> (res: &'static str)
        ensures
            res@ == match self {
                TimeslotCreateError::TimerangeStartShouldBeWeekday => "weekday of timerange.start should be equal to weekday"@,
                TimeslotCreateError::TimerangeStartShouldBeBeforeEnd => "timerange.start should be before timerange.end"@,
                TimeslotCreateError::StartTimeShouldBeBeforeEndTime => "time.start should be before time.end"@,
            },
    {
        match self {
            TimeslotCreateError::TimerangeStartShouldBeWeekday => "weekday of timerange.start should be equal to weekday",
            TimeslotCreateError::TimerangeStartShouldBeBeforeEnd => "timerange.start should be before timerange.end",
            TimeslotCreateError::StartTimeShouldBeBeforeEndTime => "time.start should be before time.end",
        }
    }
}

/// The first rule that a request breaks, if any: the first date must fall on
/// the stated weekday, must not lie after the last date, and the start time
/// must not lie after the end time.
pub open spec fn create_error(r: &TimeslotCreate) -> Option<TimeslotCreateError> {
    if weekday_of(r.timerange.start.day as int) != r.weekday {
        Some(TimeslotCreateError::TimerangeStartShouldBeWeekday)
    } else if r.timerange.start.day > r.timerange.end.day {
        Some(TimeslotCreateError::TimerangeStartShouldBeBeforeEnd)
    } else if r.time.start.secs > r.time.end.secs {
        Some(TimeslotCreateError::StartTimeShouldBeBeforeEndTime)
    } else {
        None
    }
}

/// The names of a list of participants, in order.
pub open spec fn student_names(students: Seq<Student>) -> Seq<Seq<char>> {
    students.map_values(|s: Student| s@)
}

/// The names of a list of strings, in order.
pub open spec fn string_views(strings: Seq<String>) -> Seq<Seq<char>> {
    strings.map_values(|s: String| s@)
}

/// Checks a request and builds the timeslot to store for the user `u` under
/// the identifier `id`.
///
/// A request that breaks a rule is refused with the first rule it breaks. A
/// timeslot that is built carries the request's values unchanged, and it
/// converts into a well-formed timeslot whenever its dates and times are
/// representable.
pub fn create(u: &UserId, id: u128, r: TimeslotCreate) -> (res: Result<
    TimeSlot,
    TimeslotCreateError,
>)
    ensures
        res is Err <==> create_error(&r) is Some,
        res matches Err(e) ==> create_error(&r) == Some(e),
        res matches Ok(ts) ==> {
            &&& ts.user_id@ == u@
            &&& ts.id == id
            &&& ts.subject == r.subject
            &&& string_views(ts.students@) == student_names(r.students@)
            &&& ts.time == (DbTime { beginning: r.time.start, finish: r.time.end })
            &&& ts.timerange == (DbTimerange {
                beginning: r.timerange.start,
                finish: r.timerange.end,
            })
            &&& ts.timezone == r.timezone
            &&& (r.time.start.wf() && r.time.end.wf() && r.timerange.start.wf()
                && r.timerange.end.wf() ==> spec_convert_ts(ts).wf())
        },
{
    if r.timerange.start.weekday() != r.weekday {
        return Err(TimeslotCreateError::TimerangeStartShouldBeWeekday);
    }
    if r.timerange.start.day > r.timerange.end.day {
        return Err(TimeslotCreateError::TimerangeStartShouldBeBeforeEnd);
    }
    if r.time.start.secs > r.time.end.secs {
        return Err(TimeslotCreateError::StartTimeShouldBeBeforeEndTime);
    }
    let mut students: Vec<String> = Vec::new();
    let mut k: usize = 0;
    while k < r.students.len()
        invariant
            k <= r.students.len(),
            string_views(students@) == student_names(r.students@.take(k as int)),
        decreases r.students.len() - k,
    {
        let ghost before = students@;
        students.push(r.students[k].name.clone());
        proof {
            assert(r.students@.take(k + 1) =~= r.students@.take(k as int).push(
                r.students@[k as int],
            ));
            assert(string_views(students@) =~= string_views(before).push(r.students@[k as int]@));
            assert(student_names(r.students@.take(k + 1)) =~= student_names(
                r.students@.take(k as int),
            ).push(r.students@[k as int]@));
        }
        k = k + 1;
    }
    assert(r.students@.take(k as int) =~= r.students@);
    Ok(
        TimeSlot {
            user_id: u.as_str().to_owned(),
            id,
            subject: r.subject,
            students,
            time: DbTime { beginning: r.time.start, finish: r.time.end },
            timerange: DbTimerange { beginning: r.timerange.start, finish: r.timerange.end },
            timezone: r.timezone,
        },
    )
}

} // verus!
