//! Requests about timeslots: deleting one, the overview of all, and the
//! export of the entries of an interval of weeks.

use crate::calendar::weekday_of;
use crate::entry::{
    get_time_from_index_and_timeslot, is_missing_list, missing_entries, next_entry_date_timeslot,
    next_occurrence, occurrence_at, occurrence_day, utc_day, UnfilledEntry,
};
use crate::export::{entry_sentence, format_entry, listed, seperate_status_map};
use crate::handlers::entry::InternalError;
use crate::isoweek::{iso_week_of_date, iso_week_of_day, iso_week_start, IsoWeek};
use crate::model::{EntryState, StudentStatus, WebEntry, WebTimeSlot};
use crate::sorting::{is_stable_order, sort_by_keys, stable_order_of, stably_sorted};
use crate::text::{decimal_text, format_decimal};
use crate::timeslot::{get_index_range_timeslot, index_range_for_weeks};
use crate::util::create_isoweek;
use core::ops::Range;
use vstd::prelude::*;
use vstd::string::StringExecFns;

verus! {

/// Why a timeslot cannot be deleted.
#[derive(Debug, Clone, Copy, PartialEq, Eq, Structural)]
pub enum DeleteError {
    NotFound,
}

impl DeleteError {
    /// The HTTP status that reports this error: 404.
    pub fn status_code(&self) -> (res: u16)
        ensures
            res == 404,
    {
        404
    }

    /// The text that reports this error.
    pub fn message(&self) -> (res: &'static str)
        ensures
            res@ == "couldn't find timeslot to delete"@,
    {
        "couldn't find timeslot to delete"
    }
}

/// Reports whether a timeslot was deleted, given the number of stored
/// timeslots that the deletion removed.
pub fn delete(deleted: u64) -> (res: Result<&'static str, DeleteError>)
    ensures
        res is Err <==> deleted == 0,
        res matches Ok(text) ==> text@ == "deleted"@,
        res matches Err(e) ==> e == DeleteError::NotFound,
{
    if deleted == 0 {
        return Err(DeleteError::NotFound);
    }
    Ok("deleted")
}

/// What the overview tells of one timeslot.
#[derive(Debug)]
pub struct InformationV3ResponseItem {
    pub ts: WebTimeSlot,
    /// The occurrence that is due next.
    pub next: UnfilledEntry,
    /// Number of past occurrences without an entry.
    pub missing: u32,
}

/// Builds the overview of one timeslot at the instant `now`, given the
/// indices of its entries. A timeslot whose next occurrence has no instant
/// fails the request.
pub fn information_item(ts: WebTimeSlot, found_indexes: &Vec<u32>, now: i64) -> (res: Result<
    InformationV3ResponseItem,
    InternalError,
>)
    requires
        ts.wf(),
    ensures
        res is Ok <==> next_occurrence(&ts, now as int) is Some,
        res matches Err(e) ==> e == InternalError::TimezoneIssue,
        res matches Ok(item) ==> {
            &&& item.ts == ts
            &&& next_occurrence(&ts, now as int) == Some((item.next.index, item.next.timestamp))
            &&& exists|list: Seq<UnfilledEntry>| #[trigger]
                is_missing_list(list, &ts, utc_day(now as int), found_indexes@) && list.len()
                    == item.missing
        },
{
    let next = match next_entry_date_timeslot(&ts, now) {
        Some((index, timestamp)) => UnfilledEntry { index, timestamp },
        None => {
            return Err(InternalError::TimezoneIssue);
        },
    };
    let missing = missing_entries(&ts, found_indexes, now);
    proof {
        // The indices ascend strictly from zero on, and each fits 32 bits.
        if missing@.len() > 0 {
            let last = missing@.len() - 1;
            lemma_ascending_from_zero(missing@, last);
            crate::entry::lemma_required_count_bounds(&ts, utc_day(now as int), 0);
            assert(crate::entry::is_required(&ts, utc_day(now as int), missing@[last].index as int));
        }
    }
    Ok(InformationV3ResponseItem { ts, next, missing: missing.len() as u32 })
}

/// In a list whose indices ascend strictly, no index is below its place.
proof fn lemma_ascending_from_zero(list: Seq<UnfilledEntry>, k: int)
    requires
        forall|i: int, j: int|
            0 <= i < j < list.len() ==> (#[trigger] list[i]).index < (#[trigger] list[j]).index,
        0 <= k < list.len(),
    ensures
        k <= list[k].index,
    decreases k,
{
    if k > 0 {
        lemma_ascending_from_zero(list, k - 1);
        assert(list[k - 1].index < list[k].index);
    }
}

/// The keys that sort the overview by the instant of the next occurrence.
pub open spec fn next_instant_keys(items: Seq<InformationV3ResponseItem>) -> Seq<i64> {
    items.map_values(|item: InformationV3ResponseItem| item.next.timestamp.utc_secs)
}

/// Orders the overview by the instant of each timeslot's next occurrence,
/// the earliest first. Timeslots with the same instant keep their order.
pub fn information(items: Vec<InformationV3ResponseItem>) -> (res: Vec<InformationV3ResponseItem>)
    ensures
        res@ == stably_sorted(items@, next_instant_keys(items@)),
{
    let mut keys: Vec<i64> = Vec::new();
    let mut k: usize = 0;
    while k < items.len()
        invariant
            k <= items.len(),
            keys@ == next_instant_keys(items@.take(k as int)),
        decreases items.len() - k,
    {
        keys.push(items[k].next.timestamp.utc_secs);
        proof {
            assert(next_instant_keys(items@.take(k + 1)) =~= next_instant_keys(
                items@.take(k as int),
            ).push(items@[k as int].next.timestamp.utc_secs));
        }
        k = k + 1;
    }
    assert(items@.take(k as int) =~= items@);
    sort_by_keys(items, keys)
}

/// What a request for an export carries: the first and the last ISO week,
/// and whether timeslots with too few entries may take part.
#[derive(Debug, Clone, Copy, PartialEq, Eq, Structural)]
pub struct ExportRequest {
    pub start_year: i32,
    pub start_week: u32,
    pub end_year: i32,
    pub end_week: u32,
    pub allow_incomplete: bool,
}

/// Why there is no export.
#[derive(Debug)]
pub enum ExportError {
    InvalidWeekYear,
    /// Subject and identifier of each timeslot that has too few entries.
    MissingEntries(Vec<(String, u128)>),
}

impl ExportError {
    /// The HTTP status that reports this error: 422 for a week that does not
    /// exist, 428 for missing entries.
    pub fn status_code(&self) -> (res: u16)
        ensures
            res == match self {
                ExportError::InvalidWeekYear => 422u16,
                ExportError::MissingEntries(_) => 428u16,
            },
    {
        match self {
            ExportError::InvalidWeekYear => 422,
            ExportError::MissingEntries(_) => 428,
        }
    }
}

/// The interval of weeks that a request names, if both weeks exist.
pub open spec fn requested_weeks(q: &ExportRequest) -> Option<Range<IsoWeek>> {
    if iso_week_start(q.start_year as int, q.start_week as int) is Some && iso_week_start(
        q.end_year as int,
        q.end_week as int,
    ) is Some {
        Some(
            Range {
                start: IsoWeek { year: q.start_year, week: q.start_week },
                end: IsoWeek { year: q.end_year, week: q.end_week },
            },
        )
    } else {
        None
    }
}

/// Reads the interval of weeks from a request. A week that does not exist
/// refuses the request.
pub fn export_weeks(q: &ExportRequest) -> (res: Result<Range<IsoWeek>, ExportError>)
    ensures
        res is Ok <==> requested_weeks(q) is Some,
        res matches Ok(weeks) ==> requested_weeks(q) == Some(weeks),
        res matches Err(e) ==> e is InvalidWeekYear,
{
    let start = match create_isoweek(q.start_year, q.start_week) {
        Some(w) => w,
        None => {
            return Err(ExportError::InvalidWeekYear);
        },
    };
    let end = match create_isoweek(q.end_year, q.end_week) {
        Some(w) => w,
        None => {
            return Err(ExportError::InvalidWeekYear);
        },
    };
    Ok(Range { start, end })
}

/// The key that orders timeslots for an export: the weekday of the first
/// date from Monday on, then the start time.
pub open spec fn timeslot_key(ts: &WebTimeSlot) -> i64 {
    (weekday_of(ts.timerange.start.day as int).spec_num_days_from_monday() * 4_294_967_296
        + ts.time.start.secs) as i64
}

/// The keys of a list of timeslots.
pub open spec fn timeslot_keys(timeslots: Seq<WebTimeSlot>) -> Seq<i64> {
    timeslots.map_values(|ts: WebTimeSlot| timeslot_key(&ts))
}

/// Orders timeslots for an export: by the weekday of their first date, from
/// Monday on, and within a weekday by their start time. Timeslots that agree
/// in both keep their order.
pub fn sort_timeslots(timeslots: Vec<WebTimeSlot>) -> (res: Vec<WebTimeSlot>)
    ensures
        res@ == stably_sorted(timeslots@, timeslot_keys(timeslots@)),
{
    let mut keys: Vec<i64> = Vec::new();
    let mut k: usize = 0;
    while k < timeslots.len()
        invariant
            k <= timeslots.len(),
            keys@ == timeslot_keys(timeslots@.take(k as int)),
        decreases timeslots.len() - k,
    {
        let weekday: i64 = timeslots[k].timerange.start.weekday().num_days_from_monday() as i64;
        let key: i64 = weekday * 4_294_967_296 + timeslots[k].time.start.secs as i64;
        keys.push(key);
        proof {
            assert(timeslot_keys(timeslots@.take(k + 1)) =~= timeslot_keys(
                timeslots@.take(k as int),
            ).push(timeslot_key(&timeslots@[k as int])));
        }
        k = k + 1;
    }
    assert(timeslots@.take(k as int) =~= timeslots@);
    sort_by_keys(timeslots, keys)
}

/// Which entries of a timeslot an export needs: the first and the last
/// index, both inclusive, and their number.
#[derive(Debug, PartialEq, Eq)]
pub struct EntryFetch {
    /// The indices to fetch; `end` is the last index, inclusive.
    pub range: Range<i32>,
    pub expected_entry_count: u32,
}

/// Decides which entries of a timeslot an export of the given weeks needs.
/// There is nothing to fetch where the weeks cover none of its occurrences.
pub fn plan_fetch(ts: &WebTimeSlot, weeks: Range<IsoWeek>) -> (res: Option<EntryFetch>)
    requires
        ts.wf(),
    ensures
        res is Some <==> index_range_for_weeks(ts, weeks) is Some,
        res matches Some(fetch) ==> {
            &&& index_range_for_weeks(ts, weeks) == Some(
                (fetch.range.start as int, fetch.range.end as int),
            )
            &&& fetch.expected_entry_count == fetch.range.end - fetch.range.start + 1
        },
{
    match get_index_range_timeslot(ts, weeks) {
        Some(r) => {
            let expected_entry_count: u32 = r.end - r.start + 1;
            Some(
                EntryFetch {
                    range: Range { start: r.start as i32, end: r.end as i32 },
                    expected_entry_count,
                },
            )
        },
        None => None,
    }
}

/// The entries that were fetched for one timeslot, and how many the export
/// expects.
#[derive(Debug)]
pub struct FetchedEntries {
    pub entries: Vec<WebEntry>,
    pub timeslot: WebTimeSlot,
    pub expected_count: u32,
}

/// One line of an export before it is written: an entry, given by its place
/// among the fetched entries, and the week it is in.
#[derive(Debug, Clone, Copy, PartialEq, Eq, Structural)]
pub struct PlannedLine {
    pub week: IsoWeek,
    /// Position of the timeslot in the list.
    pub timeslot: usize,
    /// Position of the entry among those of the timeslot.
    pub entry: usize,
}

/// An entry of a fetched timeslot whose occurrence has no instant.
#[derive(Debug, Clone, Copy, PartialEq, Eq, Structural)]
pub struct ExportFailure {
    /// Position of the timeslot in the list.
    pub timeslot: usize,
    /// Position of the entry among those of the timeslot.
    pub entry: usize,
}

/// Whether fewer entries were fetched for a timeslot than the export expects.
pub open spec fn is_incomplete(f: &FetchedEntries) -> bool {
    f.entries@.len() < f.expected_count
}

/// Whether an entry can be put into a sentence: an occurrence that the
/// participants cancelled names at least one of them as excused.
pub open spec fn can_be_described(e: &WebEntry) -> bool {
    e.state == EntryState::CancelledByStudents ==> listed(e.students@, StudentStatus::Pardoned)
        is Some
}

/// Tests whether an entry can be put into a sentence.
pub fn is_describable(e: &WebEntry) -> (res: bool)
    ensures
        res == can_be_described(e),
{
    match e.state {
        EntryState::CancelledByStudents => {
            let map = seperate_status_map(e.students.as_slice());
            assert(crate::export::texts(map.pardoned@).len() == map.pardoned@.len());
            map.pardoned.len() > 0
        },
        _ => true,
    }
}

/// Whether every fetched timeslot is well-formed.
pub open spec fn timeslots_are_well_formed(fetched: Seq<FetchedEntries>) -> bool {
    forall|t: int| 0 <= t < fetched.len() ==> (#[trigger] fetched[t]).timeslot.wf()
}

/// Tests whether every fetched timeslot is well-formed.
pub fn are_well_formed(fetched: &Vec<FetchedEntries>) -> (res: bool)
    ensures
        res == timeslots_are_well_formed(fetched@),
{
    let mut t: usize = 0;
    while t < fetched.len()
        invariant
            t <= fetched.len(),
            forall|a: int| 0 <= a < t ==> (#[trigger] fetched@[a]).timeslot.wf(),
        decreases fetched.len() - t,
    {
        if !fetched[t].timeslot.is_well_formed() {
            return false;
        }
        t = t + 1;
    }
    true
}

/// The line of the entry at position `k` of the timeslot at position `t`,
/// or `None` where its occurrence has no instant.
pub open spec fn line_of(f: &FetchedEntries, t: int, k: int) -> Option<PlannedLine> {
    let e = f.entries@[k];
    match occurrence_at(&f.timeslot, e.index as int) {
        None => None,
        Some(_) => {
            let week = iso_week_of_day(occurrence_day(&f.timeslot, e.index as int));
            Some(
                PlannedLine {
                    week: IsoWeek { year: week.0 as i32, week: week.1 as u32 },
                    timeslot: t as usize,
                    entry: k as usize,
                },
            )
        },
    }
}

/// The lines of the first `k` entries of the timeslot at position `t`, or
/// the position of the first entry among them whose occurrence has no instant.
pub open spec fn timeslot_lines(f: &FetchedEntries, t: int, k: int) -> Result<
    Seq<PlannedLine>,
    int,
>
    decreases k,
{
    if k <= 0 {
        Ok(Seq::empty())
    } else {
        match timeslot_lines(f, t, k - 1) {
            Err(p) => Err(p),
            Ok(lines) => match line_of(f, t, k - 1) {
                None => Err(k - 1),
                Some(line) => Ok(lines.push(line)),
            },
        }
    }
}

/// What an export comes to.
pub enum ExportPlan {
    /// An entry has no instant: the timeslot's and the entry's position.
    Failed { timeslot: int, entry: int },
    /// Timeslots lack entries: subject and identifier of each.
    Missing(Seq<(Seq<char>, u128)>),
    /// The lines in the order of the timeslots and their entries.
    Lines(Seq<PlannedLine>),
}

/// What the first `n` fetched timeslots come to, taken in order.
///
/// A timeslot with too few entries is left out where incomplete timeslots
/// are allowed, and is reported as missing where they are not. From the first
/// timeslot that is reported on no lines are made. Before it, an entry whose
/// occurrence has no instant fails the export.
pub open spec fn export_plan(fetched: Seq<FetchedEntries>, allow_incomplete: bool, n: int) -> ExportPlan
    decreases n,
{
    if n <= 0 {
        ExportPlan::Lines(Seq::empty())
    } else {
        let f = fetched[n - 1];
        let before = export_plan(fetched, allow_incomplete, n - 1);
        if is_incomplete(&f) {
            if allow_incomplete {
                before
            } else {
                match before {
                    ExportPlan::Failed { timeslot, entry } => ExportPlan::Failed {
                        timeslot,
                        entry,
                    },
                    ExportPlan::Missing(list) => ExportPlan::Missing(
                        list.push((f.timeslot.subject@, f.timeslot.id)),
                    ),
                    ExportPlan::Lines(_) => ExportPlan::Missing(
                        seq![(f.timeslot.subject@, f.timeslot.id)],
                    ),
                }
            }
        } else {
            match before {
                ExportPlan::Lines(lines) => match timeslot_lines(
                    &f,
                    n - 1,
                    f.entries@.len() as int,
                ) {
                    Err(k) => ExportPlan::Failed { timeslot: n - 1, entry: k },
                    Ok(more) => ExportPlan::Lines(lines + more),
                },
                _ => before,
            }
        }
    }
}

/// The key that orders weeks: the year, then the number of the week.
pub open spec fn week_key(week: IsoWeek) -> i64 {
    (week.year * 64 + week.week) as i64
}

/// The keys of a list of lines.
pub open spec fn line_keys(lines: Seq<PlannedLine>) -> Seq<i64> {
    lines.map_values(|line: PlannedLine| week_key(line.week))
}

/// The lines in the order in which an export shows them: by week, and
/// within a week in their given order.
pub open spec fn ordered_lines(lines: Seq<PlannedLine>) -> Seq<PlannedLine> {
    stably_sorted(lines, line_keys(lines))
}

/// Whether a line names an entry that was fetched.
pub open spec fn line_is_fetched(fetched: Seq<FetchedEntries>, line: PlannedLine) -> bool {
    line.timeslot < fetched.len() && line.entry < fetched[line.timeslot as int].entries@.len()
}

/// Whether every line names a fetched entry that can be put into a sentence.
pub open spec fn lines_can_be_written(fetched: Seq<FetchedEntries>, lines: Seq<PlannedLine>) -> bool {
    forall|i: int|
        0 <= i < lines.len() ==> line_is_fetched(fetched, #[trigger] lines[i]) && can_be_described(
            &fetched[lines[i].timeslot as int].entries@[lines[i].entry as int],
        )
}

/// Tests whether every line names a fetched entry that can be put into a
/// sentence.
pub fn can_write_lines(fetched: &Vec<FetchedEntries>, lines: &Vec<PlannedLine>) -> (res: bool)
    ensures
        res == lines_can_be_written(fetched@, lines@),
{
    let mut i: usize = 0;
    while i < lines.len()
        invariant
            i <= lines.len(),
            forall|a: int|
                0 <= a < i ==> line_is_fetched(fetched@, #[trigger] lines@[a]) && can_be_described(
                    &fetched@[lines@[a].timeslot as int].entries@[lines@[a].entry as int],
                ),
        decreases lines.len() - i,
    {
        let line = lines[i];
        if line.timeslot >= fetched.len() {
            return false;
        }
        if line.entry >= fetched[line.timeslot].entries.len() {
            return false;
        }
        if !is_describable(&fetched[line.timeslot].entries[line.entry]) {
            return false;
        }
        i = i + 1;
    }
    true
}

/// The sentence of a line.
pub open spec fn line_text(fetched: Seq<FetchedEntries>, line: PlannedLine) -> Seq<char> {
    let f = fetched[line.timeslot as int];
    let e = f.entries@[line.entry as int];
    entry_sentence(e.state, e.students@, f.timeslot.students@)
}

/// The text of the first `n` lines of a list that is ordered by week: each
/// sentence on a line of its own, and before the first sentence of each week a
/// line with `KW` and the number of the week.
pub open spec fn rendered(fetched: Seq<FetchedEntries>, lines: Seq<PlannedLine>, n: int) -> Seq<
    char,
>
    decreases n,
{
    if n <= 0 {
        Seq::empty()
    } else {
        let line = lines[n - 1];
        let heading = if n == 1 || lines[n - 2].week != line.week {
            "KW"@ + decimal_text(line.week.week as int) + "\n"@
        } else {
            Seq::empty()
        };
        rendered(fetched, lines, n - 1) + heading + line_text(fetched, line) + "\n"@
    }
}

/// The text of an export with the given lines, which are ordered by week.
pub open spec fn export_text_of(fetched: Seq<FetchedEntries>, lines: Seq<PlannedLine>) -> Seq<
    char,
> {
    rendered(fetched, lines, lines.len() as int)
}

/// Subject and identifier of each timeslot in a list.
pub open spec fn timeslot_names(list: Seq<(String, u128)>) -> Seq<(Seq<char>, u128)> {
    list.map_values(|entry: (String, u128)| (entry.0@, entry.1))
}

/// Makes the lines of one timeslot's entries, or finds the first entry whose
/// occurrence has no instant.
fn lines_of_timeslot(f: &FetchedEntries, t: usize, lines: &mut Vec<PlannedLine>) -> (res: Option<
    usize,
>)
    requires
        f.timeslot.wf(),
    ensures
        match timeslot_lines(f, t as int, f.entries@.len() as int) {
            Err(k) => res == Some(k as usize) && k < f.entries@.len(),
            Ok(more) => res is None && final(lines)@ == old(lines)@ + more,
        },
{
    let ghost before = lines@;
    let mut k: usize = 0;
    assert(before + Seq::<PlannedLine>::empty() =~= before);
    while k < f.entries.len()
        invariant
            f.timeslot.wf(),
            k <= f.entries.len(),
            timeslot_lines(f, t as int, k as int) matches Ok(more) && lines@ == before + more,
        decreases f.entries.len() - k,
    {
        let e = &f.entries[k];
        let timestamp = match get_time_from_index_and_timeslot(&f.timeslot, e.index) {
            Some(t) => t,
            None => {
                assert(timeslot_lines(f, t as int, k + 1) is Err);
                proof {
                    lemma_lines_error_stays(f, t as int, k + 1, f.entries@.len() as int);
                }
                return Some(k);
            },
        };
        let week = iso_week_of_date(timestamp.local_date());
        let ghost more = timeslot_lines(f, t as int, k as int)->Ok_0;
        let line = PlannedLine { week, timeslot: t, entry: k };
        lines.push(line);
        proof {
            assert(line_of(f, t as int, k as int) == Some(line));
            assert(before + more.push(line) =~= (before + more).push(line));
        }
        k = k + 1;
    }
    None
}

/// Once an entry without an instant is found, it stays the first.
proof fn lemma_lines_error_stays(f: &FetchedEntries, t: int, k: int, n: int)
    requires
        0 <= k <= n,
        timeslot_lines(f, t, k) is Err,
    ensures
        timeslot_lines(f, t, n) == timeslot_lines(f, t, k),
    decreases n - k,
{
    if k < n {
        lemma_lines_error_stays(f, t, k, n - 1);
    }
}

/// The lines of a timeslot name entries of that timeslot, and the position
/// of an entry without an instant lies among its entries.
proof fn lemma_timeslot_lines(f: &FetchedEntries, t: int, n: int)
    requires
        0 <= t,
        0 <= n <= f.entries@.len(),
        t <= usize::MAX,
    ensures
        match timeslot_lines(f, t, n) {
            Err(k) => 0 <= k < n,
            Ok(lines) => forall|i: int|
                0 <= i < lines.len() ==> (#[trigger] lines[i]).timeslot == t && lines[i].entry < n,
        },
    decreases n,
{
    if n > 0 {
        lemma_timeslot_lines(f, t, n - 1);
    }
}

/// A failure that the first `k` timeslots come to is what all come to.
proof fn lemma_plan_failure_stays(fetched: Seq<FetchedEntries>, allow_incomplete: bool, k: int, n: int)
    requires
        0 <= k <= n,
        export_plan(fetched, allow_incomplete, k) is Failed,
    ensures
        export_plan(fetched, allow_incomplete, n) == export_plan(fetched, allow_incomplete, k),
    decreases n - k,
{
    if k < n {
        lemma_plan_failure_stays(fetched, allow_incomplete, k, n - 1);
    }
}

/// Sorting keeps every line a line that names a fetched entry.
proof fn lemma_ordered_lines_are_fetched(fetched: Seq<FetchedEntries>, lines: Seq<PlannedLine>)
    requires
        forall|i: int| 0 <= i < lines.len() ==> line_is_fetched(fetched, #[trigger] lines[i]),
        is_stable_order(stable_order_of(line_keys(lines)), line_keys(lines)),
    ensures
        ordered_lines(lines).len() == lines.len(),
        forall|i: int|
            0 <= i < lines.len() ==> line_is_fetched(fetched, #[trigger] ordered_lines(lines)[i]),
{
    let order = stable_order_of(line_keys(lines));
    assert forall|i: int| 0 <= i < lines.len() implies line_is_fetched(
        fetched,
        #[trigger] ordered_lines(lines)[i],
    ) by {
        assert(ordered_lines(lines)[i] == lines[order[i]]);
    }
}

/// Decides what an export of the fetched entries comes to, timeslot by
/// timeslot, without writing a sentence.
///
/// A timeslot with fewer entries than expected is left out where incomplete
/// timeslots are allowed; where they are not, the export is refused with the
/// list of all such timeslots. An entry whose occurrence has no instant fails
/// the export, if it is met before the first timeslot that is reported.
/// Otherwise the result holds one line for each entry of the complete
/// timeslots, ordered by ISO week and within a week by timeslot and entry.
pub fn plan_export(fetched: &Vec<FetchedEntries>, allow_incomplete: bool) -> (res: Result<
    Result<Vec<PlannedLine>, ExportError>,
    ExportFailure,
>)
    requires
        timeslots_are_well_formed(fetched@),
    ensures
        match export_plan(fetched@, allow_incomplete, fetched@.len() as int) {
            ExportPlan::Failed { timeslot, entry } => res matches Err(failure) && failure.timeslot
                == timeslot && failure.entry == entry,
            ExportPlan::Missing(list) => res matches Ok(Err(ExportError::MissingEntries(names)))
                && timeslot_names(names@) == list,
            ExportPlan::Lines(lines) => res matches Ok(Ok(ordered)) && ordered@ == ordered_lines(
                lines,
            ) && forall|i: int|
                0 <= i < ordered@.len() ==> line_is_fetched(fetched@, #[trigger] ordered@[i]),
        },
{
    let mut lines: Vec<PlannedLine> = Vec::new();
    let mut missing: Vec<(String, u128)> = Vec::new();
    let mut t: usize = 0;
    while t < fetched.len()
        invariant
            t <= fetched.len(),
            timeslots_are_well_formed(fetched@),
            match export_plan(fetched@, allow_incomplete, t as int) {
                ExportPlan::Failed { .. } => false,
                ExportPlan::Missing(list) => missing@.len() > 0 && timeslot_names(missing@)
                    == list,
                ExportPlan::Lines(made) => missing@.len() == 0 && lines@ == made && forall|i: int|
                    0 <= i < made.len() ==> line_is_fetched(fetched@, #[trigger] made[i]),
            },
        decreases fetched.len() - t,
    {
        let f = &fetched[t];
        let ghost old_missing = missing@;
        let ghost old_lines = lines@;
        if f.entries.len() < f.expected_count as usize {
            if !allow_incomplete {
                missing.push((f.timeslot.subject.clone(), f.timeslot.id));
                proof {
                    assert(timeslot_names(missing@) =~= timeslot_names(old_missing).push(
                        (f.timeslot.subject@, f.timeslot.id),
                    ));
                    assert(timeslot_names(old_missing).len() == old_missing.len());
                    if old_missing.len() == 0 {
                        assert(timeslot_names(missing@) =~= seq![
                            (f.timeslot.subject@, f.timeslot.id),
                        ]);
                    }
                }
            }
        } else if missing.len() == 0 {
            proof {
                lemma_timeslot_lines(f, t as int, f.entries@.len() as int);
            }
            match lines_of_timeslot(f, t, &mut lines) {
                Some(entry) => {
                    proof {
                        lemma_plan_failure_stays(
                            fetched@,
                            allow_incomplete,
                            t + 1,
                            fetched@.len() as int,
                        );
                    }
                    return Err(ExportFailure { timeslot: t, entry });
                },
                None => {
                    proof {
                        let more = timeslot_lines(f, t as int, f.entries@.len() as int)->Ok_0;
                        assert forall|i: int| 0 <= i < lines@.len() implies line_is_fetched(
                            fetched@,
                            #[trigger] lines@[i],
                        ) by {
                            if i < old_lines.len() {
                                assert(lines@[i] == old_lines[i]);
                            } else {
                                assert(lines@[i] == more[i - old_lines.len()]);
                            }
                        }
                    }
                },
            }
        }
        t = t + 1;
    }
    if missing.len() > 0 {
        return Ok(Err(ExportError::MissingEntries(missing)));
    }
    let mut keys: Vec<i64> = Vec::new();
    let mut k: usize = 0;
    while k < lines.len()
        invariant
            k <= lines.len(),
            keys@ == line_keys(lines@.take(k as int)),
        decreases lines.len() - k,
    {
        let key: i64 = lines[k].week.year as i64 * 64 + lines[k].week.week as i64;
        keys.push(key);
        proof {
            assert(lines@.take(k + 1) =~= lines@.take(k as int).push(lines@[k as int]));
            assert(line_keys(lines@.take(k + 1)) =~= line_keys(lines@.take(k as int)).push(
                week_key(lines@[k as int].week),
            ));
        }
        k = k + 1;
    }
    assert(lines@.take(k as int) =~= lines@);
    let ghost unsorted = lines@;
    let sorted = sort_by_keys(lines, keys);
    proof {
        lemma_ordered_lines_are_fetched(fetched@, unsorted);
    }
    Ok(Ok(sorted))
}

/// Writes the text of lines that are ordered by week: each sentence on a
/// line of its own, and a heading before the first sentence of each week.
///
/// Every line must name a fetched entry that can be put into a sentence.
pub fn write_export(fetched: &Vec<FetchedEntries>, lines: &Vec<PlannedLine>) -> (res: String)
    requires
        lines_can_be_written(fetched@, lines@),
    ensures
        res@ == export_text_of(fetched@, lines@),
{
    let mut out = String::new();
    let mut k: usize = 0;
    while k < lines.len()
        invariant
            k <= lines.len(),
            lines_can_be_written(fetched@, lines@),
            out@ == rendered(fetched@, lines@, k as int),
        decreases lines.len() - k,
    {
        let ghost before = out@;
        let line = lines[k];
        assert(line_is_fetched(fetched@, lines@[k as int]));
        let f = &fetched[line.timeslot];
        let e = &f.entries[line.entry];
        let new_week = k == 0 || !(lines[k - 1].week == line.week);
        if new_week {
            out.append("KW");
            out.append(format_decimal(line.week.week as u64).as_str());
            out.append("\n");
        }
        let text = format_entry(e.state, e.students.as_slice(), f.timeslot.students.as_slice());
        out.append(text.as_str());
        out.append("\n");
        proof {
            let heading = if k == 0 || lines@[k - 1].week != line.week {
                "KW"@ + decimal_text(line.week.week as int) + "\n"@
            } else {
                Seq::empty()
            };
            assert(out@ =~= before + heading + line_text(fetched@, line) + "\n"@);
        }
        k = k + 1;
    }
    out
}

/// Whether the export of the fetched entries can be written: if it comes to
/// lines, every one of them names an entry that can be put into a sentence.
/// Entries that the export does not show are free.
pub open spec fn can_be_exported(fetched: Seq<FetchedEntries>, allow_incomplete: bool) -> bool {
    export_plan(fetched, allow_incomplete, fetched.len() as int) matches ExportPlan::Lines(lines)
        ==> lines_can_be_written(fetched, ordered_lines(lines))
}

/// Writes the export of the entries that were fetched, timeslot by timeslot.
///
/// What the export comes to is decided as by [`plan_export`]; where it comes
/// to lines, the text holds one sentence for each, and a heading before the
/// first sentence of each week. Only the entries that are shown must have a
/// sentence.
pub fn export_text(fetched: &Vec<FetchedEntries>, allow_incomplete: bool) -> (res: Result<
    Result<String, ExportError>,
    ExportFailure,
>)
    requires
        timeslots_are_well_formed(fetched@),
        can_be_exported(fetched@, allow_incomplete),
    ensures
        match export_plan(fetched@, allow_incomplete, fetched@.len() as int) {
            ExportPlan::Failed { timeslot, entry } => res matches Err(failure) && failure.timeslot
                == timeslot && failure.entry == entry,
            ExportPlan::Missing(list) => res matches Ok(Err(ExportError::MissingEntries(names)))
                && timeslot_names(names@) == list,
            ExportPlan::Lines(lines) => res matches Ok(Ok(text)) && text@ == export_text_of(
                fetched@,
                ordered_lines(lines),
            ),
        },
{
    match plan_export(fetched, allow_incomplete) {
        Ok(Ok(lines)) => Ok(Ok(write_export(fetched, &lines))),
        Ok(Err(e)) => Ok(Err(e)),
        Err(failure) => Err(failure),
    }
}

} // verus!
