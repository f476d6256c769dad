//! Occurrences of a timeslot: the instant of each, the ones that lack an
//! entry, the next one, and the check of a reported attendance state.

use crate::calendar::{
    day_in_range, day_of_local_seconds, MAX_DAY, SECONDS_PER_DAY, SECONDS_PER_WEEK,
};
use crate::model::{OldEntryState, Student, StudentStatus, WebTimeSlot};
use crate::util::{lemma_round_up_is_least_multiple, round_up_spec};
use crate::zone::{
    lemma_resolved_instant_date, local_time_resolution, resolve_local, resolve_single,
    resolved_instant, shows_local_time, timezone_exists, LocalResolution, ZonedTimestamp,
};
use vstd::prelude::*;

verus! {

/// Day number of the calendar date of the occurrence with the given index:
/// the first date of the timeslot and seven days for each index after it.
pub open spec fn occurrence_day(timeslot: &WebTimeSlot, index: int) -> int {
    timeslot.timerange.start.day + 7 * index
}

/// The instant at which the timeslot's local start time falls on the date
/// of the given index, whether or not that date lies within the timeslot's
/// range.
///
/// There is none where the date cannot be represented, and none where the
/// local start time on that date does not stand for exactly one instant in the
/// timeslot's zone.
pub open spec fn clock_instant(timeslot: &WebTimeSlot, index: int) -> Option<ZonedTimestamp> {
    let day = occurrence_day(timeslot, index);
    if day_in_range(day) {
        resolved_instant(timeslot.timezone@, day, timeslot.time.start.secs as int)
    } else {
        None
    }
}

/// The instant of the occurrence with the given index.
///
/// There is none where the date lies after the last date of the timeslot, and
/// none where the local start time on that date does not stand for exactly one
/// instant in the timeslot's zone.
pub open spec fn occurrence_at(timeslot: &WebTimeSlot, index: int) -> Option<ZonedTimestamp> {
    if occurrence_day(timeslot, index) > timeslot.timerange.end.day {
        None
    } else {
        clock_instant(timeslot, index)
    }
}

/// Finds the instant at which the timeslot's local start time falls on the
/// date of the given index. The last date of the timeslot plays no part.
pub fn instant_of_index(timeslot: &WebTimeSlot, index: u32) -> (res: Option<ZonedTimestamp>)
    requires
        timeslot.wf(),
    ensures
        res == clock_instant(timeslot, index as int),
        !timezone_exists(timeslot.timezone@) ==> res is None,
        res matches Some(t) ==> shows_local_time(
            t,
            occurrence_day(timeslot, index as int),
            timeslot.time.start.secs as int,
        ),
{
    match timeslot.timerange.start.checked_add_days(7 * (index as u64)) {
        Some(date) => resolve_single(
            timeslot.timezone.as_str(),
            date.day,
            timeslot.time.start.secs,
        ),
        None => None,
    }
}

/// The instant at which the occurrence with the given index starts.
///
/// The result is `None` for an index whose date lies after the timeslot's
/// last date, for a local time that a clock change skips or repeats, and for an
/// unknown zone. An instant that is returned falls on the date of the index
/// in the timeslot's zone, and that date lies within the timeslot's range.
pub fn get_time_from_index_and_timeslot(timeslot: &WebTimeSlot, index: u32) -> (res: Option<
    ZonedTimestamp,
>)
    requires
        timeslot.wf(),
    ensures
        res == occurrence_at(timeslot, index as int),
        occurrence_day(timeslot, index as int) > timeslot.timerange.end.day ==> res is None,
        !timezone_exists(timeslot.timezone@) ==> res is None,
        res matches Some(t) ==> {
            &&& t.wf()
            &&& t.local_day() == occurrence_day(timeslot, index as int)
            &&& timeslot.timerange.start.day <= t.local_day() <= timeslot.timerange.end.day
        },
{
    if 7 * (index as i64) > timeslot.timerange.end.day as i64 - timeslot.timerange.start.day as i64 {
        return None;
    }
    proof {
        lemma_occurrence_date(timeslot, index as int);
    }
    instant_of_index(timeslot, index)
}

/// What there is to say of the occurrence with a given index.
#[derive(Clone, Copy, Debug, PartialEq, Eq, Structural)]
pub enum Occurrence {
    /// The occurrence starts at this instant.
    At(ZonedTimestamp),
    /// The date of the index lies after the last date of the timeslot.
    AfterLastDate,
    /// The local start time does not exist on the date of the index, or the
    /// zone is unknown: an anomaly in the data.
    NoLocalTime,
    /// The local start time happens twice on the date of the index: an
    /// anomaly in the data.
    AmbiguousLocalTime,
}

/// What there is to say of the occurrence with the given index.
pub open spec fn occurrence_status(timeslot: &WebTimeSlot, index: int) -> Occurrence {
    let day = occurrence_day(timeslot, index);
    if day > timeslot.timerange.end.day {
        Occurrence::AfterLastDate
    } else {
        match local_time_resolution(timeslot.timezone@, day, timeslot.time.start.secs as int) {
            LocalResolution::Single(t) => if shows_local_time(
                t,
                day,
                timeslot.time.start.secs as int,
            ) {
                Occurrence::At(t)
            } else {
                Occurrence::NoLocalTime
            },
            LocalResolution::Ambiguous(_, _) => Occurrence::AmbiguousLocalTime,
            LocalResolution::Absent => Occurrence::NoLocalTime,
        }
    }
}

/// Tells whether the occurrence with the given index has an instant, and if
/// not, why: so that a caller can tell the end of the timeslot from an anomaly
/// that deserves a line in the log.
pub fn resolve_occurrence(timeslot: &WebTimeSlot, index: u32) -> (res: Occurrence)
    requires
        timeslot.wf(),
    ensures
        res == occurrence_status(timeslot, index as int),
        res matches Occurrence::At(t) ==> occurrence_at(timeslot, index as int) == Some(t),
        !(res is At) ==> occurrence_at(timeslot, index as int) is None,
{
    let new_date = match timeslot.timerange.start.checked_add_days(7 * (index as u64)) {
        Some(d) => d,
        None => {
            return Occurrence::AfterLastDate;
        },
    };
    if new_date.day > timeslot.timerange.end.day {
        return Occurrence::AfterLastDate;
    }
    match resolve_local(timeslot.timezone.as_str(), new_date.day, timeslot.time.start.secs) {
        LocalResolution::Single(t) => Occurrence::At(t),
        LocalResolution::Ambiguous(_, _) => Occurrence::AmbiguousLocalTime,
        LocalResolution::Absent => Occurrence::NoLocalTime,
    }
}

/// Every occurrence falls, in the timeslot's zone, on the date of its index:
/// the first date and seven days for each index after it. That date lies
/// within the timeslot's range.
pub proof fn lemma_occurrence_date(timeslot: &WebTimeSlot, index: int)
    requires
        timeslot.wf(),
        0 <= index,
    ensures
        occurrence_at(timeslot, index) matches Some(t) ==> {
            &&& t.wf()
            &&& t.local_day() == occurrence_day(timeslot, index)
            &&& timeslot.timerange.start.day <= t.local_day() <= timeslot.timerange.end.day
        },
{
    lemma_resolved_instant_date(
        timeslot.timezone@,
        occurrence_day(timeslot, index),
        timeslot.time.start.secs as int,
    );
}

/// An index beyond the last one whose date lies in the timeslot's range has
/// no occurrence.
pub proof fn lemma_no_occurrence_beyond_range(timeslot: &WebTimeSlot, index: int, last: int)
    requires
        occurrence_day(timeslot, last) <= timeslot.timerange.end.day,
        occurrence_day(timeslot, last + 1) > timeslot.timerange.end.day,
        index > last,
    ensures
        occurrence_at(timeslot, index) is None,
{
}

/// The instant of an occurrence depends on nothing but the timeslot's first
/// and last date, start time and zone, and the index: two timeslots that agree
/// in these have the same occurrences.
pub proof fn lemma_occurrence_is_a_function(a: &WebTimeSlot, b: &WebTimeSlot, index: int)
    requires
        a.timerange == b.timerange,
        a.time.start == b.time.start,
        a.timezone@ == b.timezone@,
    ensures
        occurrence_at(a, index) == occurrence_at(b, index),
{
}

/// Seconds in two civil days: more than two offsets can differ by.
pub const TWO_DAYS: i64 = 172_800;

/// Whether the index comes too early to be next at the instant `now`: its
/// local start time has no instant, or has one before `now`.
pub open spec fn is_before(timeslot: &WebTimeSlot, index: int, now: int) -> bool {
    match clock_instant(timeslot, index) {
        Some(t) => t.utc_secs < now,
        None => true,
    }
}

/// Whether the occurrence with the given index, at the instant `t`, is the
/// next one at the instant `now`: `t` is the instant of the index, it does not
/// lie before `now`, and every earlier index comes too early.
pub open spec fn is_next_occurrence(
    timeslot: &WebTimeSlot,
    now: int,
    index: int,
    t: ZonedTimestamp,
) -> bool {
    &&& 0 <= index
    &&& clock_instant(timeslot, index) == Some(t)
    &&& now <= t.utc_secs
    &&& forall|j: int| 0 <= j < index ==> #[trigger] is_before(timeslot, j, now)
}

/// The occurrence that is due next at the instant `now`, given in seconds
/// since the Unix epoch: the one with the least index whose instant does not
/// lie before `now`.
///
/// Its instant is that of the timeslot's local start time on the date of its
/// index, so an index stands for the same instant here as everywhere else. An
/// index whose local start time has no instant is passed over. The last date
/// of the timeslot plays no part: the next occurrence may lie after it. There
/// is no result where the first occurrence has no instant, and none where no
/// index that fits 32 bits has an instant at or after `now`.
pub open spec fn next_occurrence(timeslot: &WebTimeSlot, now: int) -> Option<
    (u32, ZonedTimestamp),
> {
    if clock_instant(timeslot, 0) is None {
        None
    } else if exists|i: int, t: ZonedTimestamp|
        i <= u32::MAX && #[trigger] is_next_occurrence(timeslot, now, i, t) {
        let (i, t) = choose|i: int, t: ZonedTimestamp|
            i <= u32::MAX && #[trigger] is_next_occurrence(timeslot, now, i, t);
        Some((i as u32, t))
    } else {
        None
    }
}

/// The instant of an index lies as many weeks after the instant of index 0
/// as the index says, give or take the difference of the two offsets.
pub proof fn lemma_instant_of_index(
    timeslot: &WebTimeSlot,
    start: ZonedTimestamp,
    index: int,
    t: ZonedTimestamp,
)
    requires
        clock_instant(timeslot, 0) == Some(start),
        clock_instant(timeslot, index) == Some(t),
    ensures
        t.utc_secs == start.utc_secs + index * SECONDS_PER_WEEK + start.offset_secs
            - t.offset_secs,
        start.utc_secs + index * SECONDS_PER_WEEK - TWO_DAYS < t.utc_secs < start.utc_secs + index
            * SECONDS_PER_WEEK + TWO_DAYS,
{
}

/// The instants of the indices ascend with the indices.
pub proof fn lemma_instants_ascend(
    timeslot: &WebTimeSlot,
    earlier: int,
    later: int,
    t: ZonedTimestamp,
    u: ZonedTimestamp,
)
    requires
        earlier < later,
        clock_instant(timeslot, earlier) == Some(t),
        clock_instant(timeslot, later) == Some(u),
    ensures
        t.utc_secs < u.utc_secs,
{
}

/// Only one occurrence is the next one.
pub proof fn lemma_next_occurrence_is_unique(
    timeslot: &WebTimeSlot,
    now: int,
    i: int,
    t: ZonedTimestamp,
    j: int,
    u: ZonedTimestamp,
)
    requires
        is_next_occurrence(timeslot, now, i, t),
        is_next_occurrence(timeslot, now, j, u),
    ensures
        i == j,
        t == u,
{
    if i < j {
        assert(is_before(timeslot, i, now));
    } else if j < i {
        assert(is_before(timeslot, j, now));
    }
}

/// An occurrence that is found to be next is what `next_occurrence` names.
pub proof fn lemma_next_occurrence_found(
    timeslot: &WebTimeSlot,
    now: int,
    index: int,
    t: ZonedTimestamp,
)
    requires
        clock_instant(timeslot, 0) is Some,
        index <= u32::MAX,
        is_next_occurrence(timeslot, now, index, t),
    ensures
        next_occurrence(timeslot, now) == Some((index as u32, t)),
{
    let (i, u) = choose|i: int, u: ZonedTimestamp|
        i <= u32::MAX && #[trigger] is_next_occurrence(timeslot, now, i, u);
    lemma_next_occurrence_is_unique(timeslot, now, index, t, i, u);
}

/// Finds the occurrence that is due next at the instant `now`, given in
/// seconds since the Unix epoch: its index and its instant.
///
/// An occurrence that starts exactly at `now` is itself the next one. The
/// last date of the timeslot is not consulted, so the result may lie after it.
pub fn next_entry_date_timeslot(timeslot: &WebTimeSlot, now: i64) -> (res: Option<
    (u32, ZonedTimestamp),
>)
    requires
        timeslot.wf(),
    ensures
        res == next_occurrence(timeslot, now as int),
        clock_instant(timeslot, 0) is None ==> res is None,
        res matches Some((index, t)) ==> {
            &&& is_next_occurrence(timeslot, now as int, index as int, t)
            &&& Some(t) == resolved_instant(
                timeslot.timezone@,
                occurrence_day(timeslot, index as int),
                timeslot.time.start.secs as int,
            )
            &&& t.wf()
        },
        res is None && clock_instant(timeslot, 0) is Some ==> forall|i: int|
            0 <= i <= u32::MAX ==> #[trigger] is_before(timeslot, i, now as int),
{
    let start = match instant_of_index(timeslot, 0) {
        Some(s) => s,
        None => {
            return None;
        },
    };
    // The first occurrence has not happened yet, so it is the next one.
    if now <= start.utc_secs {
        proof {
            lemma_next_occurrence_found(timeslot, now as int, 0, start);
        }
        return Some((0, start));
    }
    let since: i128 = now as i128 - start.utc_secs as i128;
    // The indices that lie more than two days' worth of offsets before `now`
    // come too early whatever their offset is.
    let skip: i128 = if since > TWO_DAYS as i128 {
        (since - TWO_DAYS as i128) / SECONDS_PER_WEEK as i128
    } else {
        0
    };
    assert forall|j: int| 0 <= j < skip implies #[trigger] is_before(
        timeslot,
        j,
        now as int,
    ) by {
        if clock_instant(timeslot, j) is Some {
            lemma_instant_of_index(timeslot, start, j, clock_instant(timeslot, j).unwrap());
        }
    }
    if skip > u32::MAX as i128 {
        proof {
            assert forall|i: int, t: ZonedTimestamp| i <= u32::MAX implies !#[trigger] is_next_occurrence(
                timeslot,
                now as int,
                i,
                t,
            ) by {
                if 0 <= i {
                    assert(is_before(timeslot, i, now as int));
                }
            }
        }
        return None;
    }
    let mut index: u32 = skip as u32;
    loop
        invariant
            timeslot.wf(),
            clock_instant(timeslot, 0) == Some(start),
            forall|j: int| 0 <= j < index ==> #[trigger] is_before(timeslot, j, now as int),
        decreases u32::MAX - index,
    {
        if timeslot.timerange.start.day as i64 + 7 * (index as i64) > MAX_DAY as i64 {
            // From here on no date can be represented.
            proof {
                assert forall|i: int| 0 <= i <= u32::MAX implies #[trigger] is_before(
                    timeslot,
                    i,
                    now as int,
                ) by {}
                assert forall|i: int, t: ZonedTimestamp| i <= u32::MAX implies !#[trigger] is_next_occurrence(
                    timeslot,
                    now as int,
                    i,
                    t,
                ) by {
                    if 0 <= i {
                        assert(is_before(timeslot, i, now as int));
                    }
                }
            }
            return None;
        }
        match instant_of_index(timeslot, index) {
            Some(t) => {
                if t.utc_secs >= now {
                    proof {
                        lemma_next_occurrence_found(timeslot, now as int, index as int, t);
                    }
                    return Some((index, t));
                }
            },
            None => {},
        }
        if index == u32::MAX {
            proof {
                assert forall|i: int, t: ZonedTimestamp| i <= u32::MAX implies !#[trigger] is_next_occurrence(
                    timeslot,
                    now as int,
                    i,
                    t,
                ) by {
                    if 0 <= i {
                        assert(is_before(timeslot, i, now as int));
                    }
                }
            }
            return None;
        }
        index = index + 1;
    }
}

/// Before the first occurrence, and at its very instant, that occurrence is
/// the next one.
pub proof fn lemma_next_occurrence_before_start(
    timeslot: &WebTimeSlot,
    start: ZonedTimestamp,
    now: int,
)
    requires
        clock_instant(timeslot, 0) == Some(start),
        now <= start.utc_secs,
    ensures
        next_occurrence(timeslot, now) == Some((0u32, start)),
{
    lemma_next_occurrence_found(timeslot, now, 0, start);
}

/// At the very instant at which an occurrence starts, that occurrence is the
/// next one, not the one of the week after, and its instant is that same
/// instant. This holds whatever the clocks did between the first occurrence
/// and this one.
pub proof fn lemma_next_occurrence_at_its_instant(
    timeslot: &WebTimeSlot,
    index: int,
    t: ZonedTimestamp,
)
    requires
        clock_instant(timeslot, 0) is Some,
        0 <= index <= u32::MAX,
        clock_instant(timeslot, index) == Some(t),
    ensures
        next_occurrence(timeslot, t.utc_secs as int) == Some((index as u32, t)),
{
    assert forall|j: int| 0 <= j < index implies #[trigger] is_before(
        timeslot,
        j,
        t.utc_secs as int,
    ) by {
        if clock_instant(timeslot, j) is Some {
            lemma_instants_ascend(timeslot, j, index, clock_instant(timeslot, j).unwrap(), t);
        }
    }
    lemma_next_occurrence_found(timeslot, t.utc_secs as int, index, t);
}

/// Whole weeks from the instant `start` to the instant `now`, rounded up.
pub open spec fn weeks_until_next(start: ZonedTimestamp, now: int) -> int {
    round_up_spec(now - start.utc_secs, SECONDS_PER_WEEK as int) / (SECONDS_PER_WEEK as int)
}

/// Where the offset is the same at the first occurrence and around `now`,
/// the next occurrence is found by rounding the time since the first
/// occurrence up to whole weeks: the number of weeks is its index, and its
/// instant lies that many weeks after the first.
pub proof fn lemma_next_occurrence_is_the_ceiling(
    timeslot: &WebTimeSlot,
    start: ZonedTimestamp,
    now: int,
    weeks: int,
    t: ZonedTimestamp,
)
    requires
        clock_instant(timeslot, 0) == Some(start),
        start.utc_secs <= now,
        0 <= weeks <= u32::MAX,
        (weeks - 1) * SECONDS_PER_WEEK < now - start.utc_secs <= weeks * SECONDS_PER_WEEK,
        clock_instant(timeslot, weeks) == Some(t),
        t.offset_secs == start.offset_secs,
        clock_instant(timeslot, weeks - 1) matches Some(u) ==> u.offset_secs
            == start.offset_secs,
    ensures
        weeks == weeks_until_next(start, now),
        next_occurrence(timeslot, now) == Some((weeks as u32, t)),
        t.utc_secs == start.utc_secs + weeks * SECONDS_PER_WEEK,
{
    let since = now - start.utc_secs;
    lemma_round_up_is_least_multiple(since, SECONDS_PER_WEEK as int);
    let rounded = round_up_spec(since, SECONDS_PER_WEEK as int);
    assert(rounded <= weeks * SECONDS_PER_WEEK);
    vstd::arithmetic::div_mod::lemma_fundamental_div_mod(rounded, SECONDS_PER_WEEK as int);
    assert(rounded == SECONDS_PER_WEEK * (rounded / (SECONDS_PER_WEEK as int)));
    assert(weeks == rounded / (SECONDS_PER_WEEK as int));
    lemma_instant_of_index(timeslot, start, weeks, t);
    assert forall|j: int| 0 <= j < weeks implies #[trigger] is_before(timeslot, j, now) by {
        if clock_instant(timeslot, j) is Some {
            lemma_instant_of_index(timeslot, start, j, clock_instant(timeslot, j).unwrap());
        }
    }
    lemma_next_occurrence_found(timeslot, now, weeks, t);
}

/// An occurrence that has no entry yet.
#[derive(Clone, Copy, Debug, PartialEq, Eq, Structural)]
pub struct UnfilledEntry {
    pub index: u32,
    pub timestamp: ZonedTimestamp,
}

/// Day number of the calendar date that UTC shows at the instant `now`,
/// given in seconds since the Unix epoch.
pub open spec fn utc_day(now: int) -> int {
    day_of_local_seconds(now)
}

/// Computes the day number of the UTC date of an instant.
pub fn utc_day_of(now: i64) -> (res: i64)
    ensures
        res == utc_day(now as int),
{
    let days: i64 = if now >= 0 {
        now / SECONDS_PER_DAY
    } else {
        // Floor division of a negative number, done on its positive mirror.
        let mirrored: i64 = -(now + 1);
        let q: i64 = mirrored / SECONDS_PER_DAY;
        proof {
            vstd::arithmetic::div_mod::lemma_fundamental_div_mod(mirrored as int, 86_400);
            let r = (mirrored as int) % 86_400;
            vstd::arithmetic::div_mod::lemma_fundamental_div_mod_converse(
                now as int,
                86_400,
                -(q as int) - 1,
                86_399 - r,
            );
        }
        -q - 1
    };
    days + 719_163
}

/// Whether the occurrence with the given index takes part in the enumeration
/// up to a cutoff date: it has an instant, and its date lies before the cutoff.
pub open spec fn is_required(timeslot: &WebTimeSlot, until_day: int, index: int) -> bool {
    occurrence_at(timeslot, index) is Some && occurrence_day(timeslot, index) < until_day
}

/// Number of indices, counted from `from` on without a break, whose
/// occurrences take part in the enumeration.
pub open spec fn required_count_from(timeslot: &WebTimeSlot, until_day: int, from: int) -> int
    decreases timeslot.timerange.end.day - occurrence_day(timeslot, from) + 7,
{
    if from >= 0 && is_required(timeslot, until_day, from) {
        1 + required_count_from(timeslot, until_day, from + 1)
    } else {
        0
    }
}

/// Number of occurrences that the enumeration yields: it starts at index 0
/// and stops at the first index without an instant or on or after the cutoff.
pub open spec fn required_count(timeslot: &WebTimeSlot, until_day: int) -> int {
    required_count_from(timeslot, until_day, 0)
}

/// A run of `n` indices that take part, followed by one that does not, is
/// what the count measures.
pub proof fn lemma_required_count_from(timeslot: &WebTimeSlot, until_day: int, from: int, n: int)
    requires
        0 <= from,
        0 <= n,
        forall|i: int| from <= i < from + n ==> is_required(timeslot, until_day, i),
        !is_required(timeslot, until_day, from + n),
    ensures
        required_count_from(timeslot, until_day, from) == n,
    decreases n,
{
    if n > 0 {
        assert(is_required(timeslot, until_day, from));
        lemma_required_count_from(timeslot, until_day, from + 1, n - 1);
    }
}

/// The indices below the count take part, and the count itself does not.
pub proof fn lemma_required_count_bounds(timeslot: &WebTimeSlot, until_day: int, from: int)
    requires
        0 <= from,
    ensures
        0 <= required_count_from(timeslot, until_day, from),
        forall|i: int|
            from <= i < from + required_count_from(timeslot, until_day, from) ==> is_required(
                timeslot,
                until_day,
                i,
            ),
        !is_required(timeslot, until_day, from + required_count_from(timeslot, until_day, from)),
    decreases timeslot.timerange.end.day - occurrence_day(timeslot, from) + 7,
{
    if is_required(timeslot, until_day, from) {
        lemma_required_count_bounds(timeslot, until_day, from + 1);
    }
}

/// The occurrences of a timeslot in order of their index, up to a cutoff date.
#[derive(Debug)]
pub struct EntriesForTimeslot<'a> {
    pub timeslot: &'a WebTimeSlot,
    /// Day number of the cutoff date: only earlier dates are yielded.
    pub until: i64,
    /// Index of the occurrence that comes next.
    pub index: u32,
}

/// Starts the enumeration of the occurrences whose date lies before the UTC
/// date of the instant `now`, given in seconds since the Unix epoch.
pub fn get_entries<'a>(timeslot: &'a WebTimeSlot, now: i64) -> (res: EntriesForTimeslot<'a>)
    ensures
        res.timeslot == timeslot,
        res.until == utc_day(now as int),
        res.index == 0,
{
    EntriesForTimeslot { timeslot, until: utc_day_of(now), index: 0 }
}

impl<'a> EntriesForTimeslot<'a> {
    /// Yields the instant of the next occurrence and moves on, or yields
    /// `None` and stays where the next occurrence has no instant or its date is
    /// not before the cutoff.
    pub fn next(&mut self) -> (res: Option<ZonedTimestamp>)
        requires
            old(self).timeslot.wf(),
        ensures
            final(self).timeslot == old(self).timeslot,
            final(self).until == old(self).until,
            is_required(old(self).timeslot, old(self).until as int, old(self).index as int) ==> {
                &&& res == occurrence_at(old(self).timeslot, old(self).index as int)
                &&& final(self).index == old(self).index + 1
            },
            !is_required(old(self).timeslot, old(self).until as int, old(self).index as int) ==> {
                &&& res is None
                &&& final(self).index == old(self).index
            },
    {
        let date = match get_time_from_index_and_timeslot(self.timeslot, self.index) {
            Some(t) => t,
            None => {
                return None;
            },
        };
        if date.local_date().day as i64 >= self.until {
            return None;
        }
        self.index = self.index + 1;
        Some(date)
    }
}

/// What the enumeration up to a cutoff date yields: one element for each
/// index below the count, in order, with the instant of its occurrence.
pub open spec fn is_required_list(
    list: Seq<UnfilledEntry>,
    timeslot: &WebTimeSlot,
    until_day: int,
) -> bool {
    &&& list.len() == required_count(timeslot, until_day)
    &&& forall|i: int|
        0 <= i < list.len() ==> (#[trigger] list[i]).index == i && Some(list[i].timestamp)
            == occurrence_at(timeslot, i)
}

/// Collects the occurrences whose date lies before the day numbered `until`.
pub fn required_entries(timeslot: &WebTimeSlot, until: i64) -> (res: Vec<UnfilledEntry>)
    requires
        timeslot.wf(),
    ensures
        is_required_list(res@, timeslot, until as int),
{
    let mut entries = EntriesForTimeslot { timeslot, until, index: 0 };
    let mut out: Vec<UnfilledEntry> = Vec::new();
    loop
        invariant
            timeslot.wf(),
            entries.timeslot == timeslot,
            entries.until == until,
            entries.index == out.len(),
            forall|i: int| 0 <= i < out.len() ==> is_required(timeslot, until as int, i),
            forall|i: int|
                0 <= i < out.len() ==> (#[trigger] out[i]).index == i && Some(out[i].timestamp)
                    == occurrence_at(timeslot, i),
        ensures
            entries.index == out.len(),
            forall|i: int| 0 <= i < out.len() ==> is_required(timeslot, until as int, i),
            !is_required(timeslot, until as int, out.len() as int),
            forall|i: int|
                0 <= i < out.len() ==> (#[trigger] out[i]).index == i && Some(out[i].timestamp)
                    == occurrence_at(timeslot, i),
        decreases timeslot.timerange.end.day - occurrence_day(timeslot, entries.index as int) + 7,
    {
        let index: u32 = entries.index;
        match entries.next() {
            Some(timestamp) => {
                out.push(UnfilledEntry { index, timestamp });
            },
            None => {
                break ;
            },
        }
    }
    proof {
        lemma_required_count_from(timeslot, until as int, 0, out.len() as int);
    }
    out
}

/// The indices that the enumeration up to the UTC date of `now` yields, in
/// the 32-bit signed form in which entries are stored.
pub fn required_indexes(timeslot: &WebTimeSlot, now: i64) -> (res: Vec<i32>)
    requires
        timeslot.wf(),
    ensures
        res@.len() == required_count(timeslot, utc_day(now as int)),
        forall|i: int| 0 <= i < res@.len() ==> res@[i] == i,
{
    let required = required_entries(timeslot, utc_day_of(now));
    let mut out: Vec<i32> = Vec::new();
    let mut k: usize = 0;
    while k < required.len()
        invariant
            timeslot.wf(),
            is_required_list(required@, timeslot, utc_day(now as int)),
            k <= required.len(),
            out@.len() == k,
            forall|i: int| 0 <= i < k ==> out@[i] == i,
        decreases required.len() - k,
    {
        proof {
            lemma_required_count_bounds(timeslot, utc_day(now as int), 0);
            assert(is_required(timeslot, utc_day(now as int), k as int));
        }
        out.push(required[k].index as i32);
        k = k + 1;
    }
    out
}

/// Whether `value` occurs in `list`.
pub fn contains_index(list: &Vec<u32>, value: u32) -> (res: bool)
    ensures
        res == list@.contains(value),
{
    let mut k: usize = 0;
    while k < list.len()
        invariant
            k <= list.len(),
            forall|i: int| 0 <= i < k ==> list@[i] != value,
        decreases list.len() - k,
    {
        if list[k] == value {
            return true;
        }
        k = k + 1;
    }
    false
}

/// Whether some element of `list` has the given index.
pub open spec fn lists_index(list: Seq<UnfilledEntry>, index: int) -> bool {
    exists|k: int| 0 <= k < list.len() && (#[trigger] list[k]).index == index
}

/// What is missing: the enumerated occurrences without those whose index is
/// among `found`, in ascending order of index.
pub open spec fn is_missing_list(
    list: Seq<UnfilledEntry>,
    timeslot: &WebTimeSlot,
    until_day: int,
    found: Seq<u32>,
) -> bool {
    // Every element is an enumerated occurrence that was not found.
    &&& forall|k: int|
        0 <= k < list.len() ==> {
            &&& 0 <= (#[trigger] list[k]).index < required_count(timeslot, until_day)
            &&& !found.contains(list[k].index)
            &&& Some(list[k].timestamp) == occurrence_at(timeslot, list[k].index as int)
        }
    // Every enumerated occurrence that was not found is an element.
    &&& forall|i: int|
        0 <= i < required_count(timeslot, until_day) && !found.contains(i as u32)
            ==> #[trigger] lists_index(list, i)
    // The indices ascend strictly.
    &&& forall|j: int, k: int|
        0 <= j < k < list.len() ==> (#[trigger] list[j]).index < (#[trigger] list[k]).index
}

/// Removes from a list of enumerated occurrences those whose index is among
/// `found`, and keeps the order of the rest.
fn without_found(
    required: Vec<UnfilledEntry>,
    found_indexes: &Vec<u32>,
    Ghost(timeslot): Ghost<&WebTimeSlot>,
    Ghost(until_day): Ghost<int>,
) -> (res: Vec<UnfilledEntry>)
    requires
        is_required_list(required@, timeslot, until_day),
    ensures
        is_missing_list(res@, timeslot, until_day, found_indexes@),
{
    let mut out: Vec<UnfilledEntry> = Vec::new();
    let mut k: usize = 0;
    while k < required.len()
        invariant
            is_required_list(required@, timeslot, until_day),
            k <= required.len(),
            forall|j: int|
                0 <= j < out.len() ==> {
                    &&& 0 <= (#[trigger] out[j]).index < k
                    &&& !found_indexes@.contains(out[j].index)
                    &&& Some(out[j].timestamp) == occurrence_at(timeslot, out[j].index as int)
                },
            forall|i: int|
                0 <= i < k && !found_indexes@.contains(i as u32) ==> #[trigger] lists_index(
                    out@,
                    i,
                ),
            forall|i: int, j: int|
                0 <= i < j < out.len() ==> (#[trigger] out[i]).index < (#[trigger] out[j]).index,
        decreases required.len() - k,
    {
        let entry = required[k];
        let ghost before = out@;
        if !contains_index(found_indexes, entry.index) {
            out.push(entry);
            assert(out[out.len() - 1].index == k);
        }
        proof {
            assert forall|i: int|
                0 <= i < k + 1 && !found_indexes@.contains(i as u32) implies #[trigger] lists_index(
                out@,
                i,
            ) by {
                if i < k {
                    assert(lists_index(before, i));
                    let j = choose|j: int|
                        0 <= j < before.len() && (#[trigger] before[j]).index == i;
                    assert(out@[j].index == i);
                } else {
                    assert(out@[out.len() - 1].index == i);
                }
            }
        }
        k = k + 1;
    }
    out
}

/// Lists the occurrences before the UTC date of `now` that have no entry:
/// every enumerated occurrence whose index is not among `found_indexes`, in
/// ascending order of index, each with its instant. Where every enumerated
/// index is found, nothing is missing.
pub fn missing_entries(timeslot: &WebTimeSlot, found_indexes: &Vec<u32>, now: i64) -> (res: Vec<
    UnfilledEntry,
>)
    requires
        timeslot.wf(),
    ensures
        is_missing_list(res@, timeslot, utc_day(now as int), found_indexes@),
        (forall|i: u32|
            i < required_count(timeslot, utc_day(now as int)) ==> #[trigger] found_indexes@.contains(
                i,
            )) ==> res@.len() == 0,
{
    let until = utc_day_of(now);
    let required = required_entries(timeslot, until);
    let missing = without_found(required, found_indexes, Ghost(timeslot), Ghost(until as int));
    proof {
        if missing@.len() > 0 {
            assert(!found_indexes@.contains(missing@[0].index));
        }
    }
    missing
}

/// The names of a list of participants, in order.
pub open spec fn names_of(students: Seq<Student>) -> Seq<Seq<char>> {
    students.map_values(|s: Student| s@)
}

/// The names in a list of reported statuses, in order.
pub open spec fn reported_names(statuses: Seq<(Student, StudentStatus)>) -> Seq<Seq<char>> {
    statuses.map_values(|p: (Student, StudentStatus)| p.0@)
}

/// The test that a name is not on the roster.
pub open spec fn not_on_roster(roster: Seq<Seq<char>>) -> spec_fn(Seq<char>) -> bool {
    |name: Seq<char>| !roster.contains(name)
}

/// The reported names that are not on the roster, in the order and as often
/// as they were reported.
pub open spec fn invalid_names(reported: Seq<Seq<char>>, roster: Seq<Seq<char>>) -> Seq<Seq<char>> {
    reported.filter(not_on_roster(roster))
}

/// The names that an attendance state reports and the roster does not hold.
/// Only a successful occurrence reports names.
pub open spec fn invalid_students(state: &OldEntryState, roster: Seq<Student>) -> Seq<Seq<char>> {
    match state {
        OldEntryState::Success { students } => invalid_names(
            reported_names(students@),
            names_of(roster),
        ),
        _ => Seq::empty(),
    }
}

/// Filtering one element more either appends that element or changes nothing.
proof fn lemma_filter_take_succ<A>(s: Seq<A>, pred: spec_fn(A) -> bool, i: int)
    requires
        0 <= i < s.len(),
    ensures
        s.take(i + 1).filter(pred) == if pred(s[i]) {
            s.take(i).filter(pred).push(s[i])
        } else {
            s.take(i).filter(pred)
        },
{
    reveal_with_fuel(Seq::filter, 2);
    assert(s.take(i + 1).drop_last() =~= s.take(i));
}

/// Whether a participant of that name is on the roster.
pub fn is_on_roster(roster: &[Student], name: &String) -> (res: bool)
    ensures
        res == names_of(roster@).contains(name@),
{
    let mut k: usize = 0;
    while k < roster.len()
        invariant
            k <= roster.len(),
            forall|i: int| 0 <= i < k ==> names_of(roster@)[i] != name@,
        decreases roster.len() - k,
    {
        if roster[k].name == *name {
            assert(names_of(roster@)[k as int] == name@);
            return true;
        }
        k = k + 1;
    }
    false
}

/// Checks a reported attendance state against the roster of its timeslot.
///
/// Every state but a successful occurrence passes. A successful occurrence
/// passes if every participant that it names is on the roster; otherwise the
/// names that are not come back, in the order in which they were reported.
pub fn verify_state(state: &OldEntryState, timeslot_students: &[Student]) -> (res: Result<
    (),
    Vec<Student>,
>)
    ensures
        res is Ok <==> invalid_students(state, timeslot_students@).len() == 0,
        res matches Err(invalid) ==> names_of(invalid@) == invalid_students(
            state,
            timeslot_students@,
        ),
        !(state is Success) ==> res is Ok,
{
    let mut invalid: Vec<Student> = Vec::new();
    match state {
        OldEntryState::Success { students } => {
            let ghost reported = reported_names(students@);
            let ghost pred = not_on_roster(names_of(timeslot_students@));
            let mut k: usize = 0;
            proof {
                reveal_with_fuel(Seq::filter, 1);
                assert(reported.take(0).filter(pred) =~= Seq::<Seq<char>>::empty());
                assert(names_of(invalid@) =~= Seq::<Seq<char>>::empty());
            }
            while k < students.len()
                invariant
                    k <= students.len(),
                    reported == reported_names(students@),
                    pred == not_on_roster(names_of(timeslot_students@)),
                    names_of(invalid@) == reported.take(k as int).filter(pred),
                decreases students.len() - k,
            {
                let ghost before = invalid@;
                proof {
                    lemma_filter_take_succ(reported, pred, k as int);
                }
                if !is_on_roster(timeslot_students, &students[k].0.name) {
                    invalid.push(students[k].0.clone());
                    assert(names_of(invalid@) =~= names_of(before).push(students[k as int].0@));
                }
                k = k + 1;
            }
            assert(reported.take(k as int) =~= reported);
            if invalid.len() == 0 {
                Ok(())
            } else {
                Err(invalid)
            }
        },
        _ => Ok(()),
    }
}

} // verus!
