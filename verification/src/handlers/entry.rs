//! Requests about the entries of one timeslot.

use crate::auth::{str_equal, UserId};
use crate::entry::{
    get_time_from_index_and_timeslot, is_missing_list, missing_entries, next_entry_date_timeslot,
    next_occurrence, occurrence_at, utc_day, verify_state, invalid_students, names_of,
    UnfilledEntry,
};
use crate::model::{Entry, HasUserId, OldEntryState, Student, WebEntry, WebTimeSlot};
use crate::text::{decimal_text, uuid_text};
use crate::sorting::{sort_by_keys, stably_sorted};
use crate::zone::ZonedTimestamp;
use vstd::prelude::*;

verus! {

/// Why the entries of a timeslot cannot be listed.
#[derive(Debug, Clone, Copy, PartialEq, Eq, Structural)]
pub enum TimeslotQueryError {
    TimeslotNotFound,
}

impl TimeslotQueryError {
    /// The HTTP status that reports this error: 404.
    pub fn status_code(&self) -> (res: u16)
        ensures
            res == 404,
    {
        404
    }

    /// The text that reports this error.
    pub fn message(&self) -> (res: &'static str)
        ensures
            res@ == "timeslot not found"@,
    {
        "timeslot not found"
    }
}

/// An entry together with the instant of its occurrence.
#[derive(Debug)]
pub struct QueryReturn {
    pub entry: WebEntry,
    pub timestamp: ZonedTimestamp,
}

impl HasUserId for QueryReturn {
    open spec fn owner(&self) -> Seq<char> {
        self.entry.user_id@
    }

    fn user_id(&self) -> (res: &str) {
        self.entry.user_id()
    }

    fn identifier(&self) -> (res: String)
        ensures
            res@ == "entry: "@ + uuid_text(self.entry.timeslot_id) + "-"@ + decimal_text(
                self.entry.index as int,
            ),
    {
        self.entry.identifier()
    }
}

/// The entries among the first `n` of `entries` whose occurrence has an
/// instant, each with that instant, in the order of the list.
pub open spec fn dated_entries(timeslot: &WebTimeSlot, entries: Seq<WebEntry>, n: int) -> Seq<
    QueryReturn,
>
    decreases n,
{
    if n <= 0 {
        Seq::empty()
    } else {
        let rest = dated_entries(timeslot, entries, n - 1);
        match occurrence_at(timeslot, entries[n - 1].index as int) {
            Some(timestamp) => rest.push(QueryReturn { entry: entries[n - 1], timestamp }),
            None => rest,
        }
    }
}

/// The keys that sort dated entries by descending index.
pub open spec fn descending_index_keys(dated: Seq<QueryReturn>) -> Seq<i64> {
    dated.map_values(|q: QueryReturn| (-(q.entry.index as int)) as i64)
}

/// Lists the entries of a timeslot with the instants of their occurrences,
/// the highest index first. An entry whose occurrence has no instant is left
/// out. Entries with the same index keep their order.
pub fn query(timeslot: Option<&WebTimeSlot>, entries: Vec<WebEntry>) -> (res: Result<
    Vec<QueryReturn>,
    TimeslotQueryError,
>)
    requires
        timeslot matches Some(ts) ==> ts.wf(),
    ensures
        res is Err <==> timeslot is None,
        res matches Ok(list) ==> timeslot matches Some(ts) && list@ == stably_sorted(
            dated_entries(ts, entries@, entries@.len() as int),
            descending_index_keys(dated_entries(ts, entries@, entries@.len() as int)),
        ),
{
    let timeslot = match timeslot {
        Some(x) => x,
        None => {
            return Err(TimeslotQueryError::TimeslotNotFound);
        },
    };
    let ghost all = entries@;
    let mut entries = entries;
    let mut reversed: Vec<WebEntry> = Vec::new();
    while entries.len() > 0
        invariant
            entries@.len() + reversed@.len() == all.len(),
            entries@ == all.take(entries@.len() as int),
            forall|i: int| 0 <= i < reversed@.len() ==> reversed@[i] == all[all.len() - 1 - i],
        decreases entries.len(),
    {
        let entry = entries.pop().unwrap();
        reversed.push(entry);
    }
    let mut dated: Vec<QueryReturn> = Vec::new();
    let mut keys: Vec<i64> = Vec::new();
    let ghost mut n: int = 0;
    while reversed.len() > 0
        invariant
            timeslot.wf(),
            0 <= n <= all.len(),
            reversed@.len() == all.len() - n,
            forall|i: int| 0 <= i < reversed@.len() ==> reversed@[i] == all[all.len() - 1 - i],
            dated@ == dated_entries(timeslot, all, n),
            keys@ == descending_index_keys(dated@),
        decreases reversed.len(),
    {
        let entry = reversed.pop().unwrap();
        assert(entry == all[n]);
        let ghost old_dated = dated@;
        match get_time_from_index_and_timeslot(timeslot, entry.index) {
            Some(timestamp) => {
                keys.push(-(entry.index as i64));
                dated.push(QueryReturn { entry, timestamp });
                assert(descending_index_keys(dated@) =~= descending_index_keys(old_dated).push(
                    (-(entry.index as int)) as i64,
                ));
            },
            None => {},
        }
        proof {
            n = n + 1;
        }
    }
    Ok(sort_by_keys(dated, keys))
}

/// Why the missing entries of a timeslot cannot be listed.
#[derive(Debug, Clone, Copy, PartialEq, Eq, Structural)]
pub enum MissingEntriesError {
    TimeslotNotFound,
}

impl MissingEntriesError {
    /// The HTTP status that reports this error: 404.
    pub fn status_code(&self) -> (res: u16)
        ensures
            res == 404,
    {
        404
    }

    /// The text that reports this error.
    pub fn message(&self) -> (res: &'static str)
        ensures
            res@ == "timeslot not found"@,
    {
        "timeslot not found"
    }
}

/// Lists the occurrences of a timeslot before the UTC date of `now` that
/// have no entry, given the indices of the entries that exist.
pub fn missing(timeslot: Option<&WebTimeSlot>, found_indexes: &Vec<u32>, now: i64) -> (res: Result<
    Vec<UnfilledEntry>,
    MissingEntriesError,
>)
    requires
        timeslot matches Some(ts) ==> ts.wf(),
    ensures
        res is Err <==> timeslot is None,
        res matches Ok(list) ==> timeslot matches Some(ts) && is_missing_list(
            list@,
            ts,
            utc_day(now as int),
            found_indexes@,
        ),
{
    match timeslot {
        Some(ts) => Ok(missing_entries(ts, found_indexes, now)),
        None => Err(MissingEntriesError::TimeslotNotFound),
    }
}

/// What a request to record an entry carries.
#[derive(Debug)]
pub struct CreateEntry {
    pub state: OldEntryState,
    pub index: u32,
}

/// Why an entry cannot be recorded.
#[derive(Debug)]
pub enum CreateEntryError {
    TimeslotNotFound,
    InvalidStudents(Vec<Student>),
    DuplicateIndex,
}

impl CreateEntryError {
    /// The HTTP status that reports this error: 404 for a timeslot that does
    /// not exist, 422 for participants that are not enrolled, 409 for an index
    /// that already has an entry.
    pub fn status_code(&self) -> (res: u16)
        ensures
            res == match self {
                CreateEntryError::TimeslotNotFound => 404u16,
                CreateEntryError::InvalidStudents(_) => 422u16,
                CreateEntryError::DuplicateIndex => 409u16,
            },
    {
        match self {
            CreateEntryError::TimeslotNotFound => 404,
            CreateEntryError::InvalidStudents(_) => 422,
            CreateEntryError::DuplicateIndex => 409,
        }
    }
}

/// Why a request fails for a reason that is not the client's to mend.
#[derive(Debug, Clone, Copy, PartialEq, Eq, Structural)]
pub enum InternalError {
    /// The timeslot that was read belongs to another user.
    OwnerMismatch,
    /// The index does not fit the 32-bit signed number that is stored.
    IndexOutOfRange,
    /// The store failed.
    Storage,
    /// The next occurrence of the timeslot has no instant.
    TimezoneIssue,
}

/// How the attempt to store an entry ended in failure.
#[derive(Debug, Clone, Copy, PartialEq, Eq, Structural)]
pub enum InsertEntryError {
    Duplicate,
    Other,
}

impl InsertEntryError {
    /// The text that describes this error.
    pub fn message(&self) -> (res: &'static str)
        ensures
            res@ == match self {
                InsertEntryError::Duplicate => "duplicate index"@,
                InsertEntryError::Other => "internal server error"@,
            },
    {
        match self {
            InsertEntryError::Duplicate => "duplicate index",
            InsertEntryError::Other => "internal server error",
        }
    }
}

/// The roster of a timeslot as a list of participants.
pub fn roster_of(timeslot: &WebTimeSlot) -> (res: Vec<Student>)
    ensures
        names_of(res@) == timeslot.students@.map_values(|s: String| s@),
{
    let mut roster: Vec<Student> = Vec::new();
    let mut k: usize = 0;
    while k < timeslot.students.len()
        invariant
            k <= timeslot.students.len(),
            names_of(roster@) == timeslot.students@.take(k as int).map_values(|s: String| s@),
        decreases timeslot.students.len() - k,
    {
        let ghost before = roster@;
        roster.push(Student { name: timeslot.students[k].clone() });
        proof {
            assert(names_of(roster@) =~= names_of(before).push(timeslot.students@[k as int]@));
            assert(timeslot.students@.take(k + 1).map_values(|s: String| s@)
                =~= timeslot.students@.take(k as int).map_values(|s: String| s@).push(
                timeslot.students@[k as int]@,
            ));
        }
        k = k + 1;
    }
    assert(timeslot.students@.take(k as int) =~= timeslot.students@);
    roster
}

/// What is to be done with a request to record an entry.
pub enum CreateDecision {
    /// Store this entry.
    Insert(Entry),
    /// Refuse the request.
    Refuse(CreateEntryError),
    /// Fail the request.
    Fail(InternalError),
}

/// Decides on a request to record an entry for the timeslot that was read
/// for the user `u`.
///
/// Without a timeslot the request is refused. A timeslot of another user and
/// an index above `i32::MAX` fail it. A state that names participants who are
/// not enrolled is refused with their names. Otherwise the entry is to be
/// stored, with the state as it was reported.
pub fn create(u: &UserId, r: CreateEntry, selected_timeslot: Option<&WebTimeSlot>) -> (res:
    CreateDecision)
    ensures
        selected_timeslot is None ==> res matches CreateDecision::Refuse(
            CreateEntryError::TimeslotNotFound,
        ),
        selected_timeslot matches Some(ts) ==> {
            let roster = ts.students@.map_values(|s: String| s@);
            if ts.user_id@ != u@ {
                res matches CreateDecision::Fail(InternalError::OwnerMismatch)
            } else if invalid_for(&r.state, roster).len() > 0 {
                res matches CreateDecision::Refuse(CreateEntryError::InvalidStudents(invalid))
                    && names_of(invalid@) == invalid_for(&r.state, roster)
            } else if r.index > i32::MAX {
                res matches CreateDecision::Fail(InternalError::IndexOutOfRange)
            } else {
                res matches CreateDecision::Insert(entry) && entry.user_id@ == u@ && entry.index
                    == r.index && entry.timeslot_id == ts.id && entry.state == Some(r.state)
                    && entry.state_enum is None && entry.students is None
            }
        },
{
    let selected_timeslot = match selected_timeslot {
        Some(x) => x,
        None => {
            return CreateDecision::Refuse(CreateEntryError::TimeslotNotFound);
        },
    };
    if !str_equal(selected_timeslot.user_id.as_str(), u.as_str()) {
        return CreateDecision::Fail(InternalError::OwnerMismatch);
    }
    let roster = roster_of(selected_timeslot);
    proof {
        lemma_invalid_for(&r.state, roster@, selected_timeslot.students@.map_values(|s: String| s@));
    }
    match verify_state(&r.state, roster.as_slice()) {
        Ok(()) => {
            if r.index > 2_147_483_647 {
                return CreateDecision::Fail(InternalError::IndexOutOfRange);
            }
            CreateDecision::Insert(
                Entry {
                    user_id: u.as_str().to_owned(),
                    index: r.index as i32,
                    timeslot_id: selected_timeslot.id,
                    state: Some(r.state),
                    state_enum: None,
                    students: None,
                },
            )
        },
        Err(s) => CreateDecision::Refuse(CreateEntryError::InvalidStudents(s)),
    }
}

/// The names that a state reports and a roster of names does not hold.
pub open spec fn invalid_for(state: &OldEntryState, roster: Seq<Seq<char>>) -> Seq<Seq<char>> {
    match state {
        OldEntryState::Success { students } => crate::entry::invalid_names(
            crate::entry::reported_names(students@),
            roster,
        ),
        _ => Seq::empty(),
    }
}

/// The invalid names depend on the names of the roster alone.
proof fn lemma_invalid_for(state: &OldEntryState, roster: Seq<Student>, names: Seq<Seq<char>>)
    requires
        names_of(roster) == names,
    ensures
        invalid_students(state, roster) == invalid_for(state, names),
{
}

/// What the outcome of storing an entry means for the request: a duplicate
/// index is refused, any other failure fails the request.
pub fn create_outcome(inserted: Result<(), InsertEntryError>) -> (res: Result<
    Result<(), CreateEntryError>,
    InternalError,
>)
    ensures
        inserted is Ok ==> res matches Ok(Ok(())),
        inserted matches Err(InsertEntryError::Duplicate) ==> res matches Ok(
            Err(CreateEntryError::DuplicateIndex),
        ),
        inserted matches Err(InsertEntryError::Other) ==> res matches Err(InternalError::Storage),
{
    match inserted {
        Ok(()) => Ok(Ok(())),
        Err(InsertEntryError::Duplicate) => Ok(Err(CreateEntryError::DuplicateIndex)),
        Err(InsertEntryError::Other) => Err(InternalError::Storage),
    }
}

/// Why the next entry of a timeslot cannot be told.
#[derive(Debug, Clone, Copy, PartialEq, Eq, Structural)]
pub enum NextEntryError {
    TimeslotNotFound,
}

impl NextEntryError {
    /// The HTTP status that reports this error: 404.
    pub fn status_code(&self) -> (res: u16)
        ensures
            res == 404,
    {
        404
    }

    /// The text that reports this error.
    pub fn message(&self) -> (res: &'static str)
        ensures
            res@ == "timeslot not found"@,
    {
        "timeslot not found"
    }
}

/// The answer to the question which occurrence is next.
pub open spec fn next_answer(timeslot: Option<&WebTimeSlot>, now: int) -> Result<
    Result<UnfilledEntry, NextEntryError>,
    InternalError,
> {
    match timeslot {
        None => Ok(Err(NextEntryError::TimeslotNotFound)),
        Some(ts) => match next_occurrence(ts, now) {
            Some((index, timestamp)) => Ok(Ok(UnfilledEntry { index, timestamp })),
            None => Err(InternalError::TimezoneIssue),
        },
    }
}

/// Tells the occurrence of a timeslot that is due next at the instant `now`.
/// A timeslot whose next occurrence has no instant fails the request.
pub fn next(timeslot: Option<&WebTimeSlot>, now: i64) -> (res: Result<
    Result<UnfilledEntry, NextEntryError>,
    InternalError,
>)
    requires
        timeslot matches Some(ts) ==> ts.wf(),
    ensures
        res == next_answer(timeslot, now as int),
{
    let ts = match timeslot {
        Some(d) => d,
        None => {
            return Ok(Err(NextEntryError::TimeslotNotFound));
        },
    };
    match next_entry_date_timeslot(ts, now) {
        Some((index, timestamp)) => Ok(Ok(UnfilledEntry { index, timestamp })),
        None => Err(InternalError::TimezoneIssue),
    }
}

/// The stored form of the index of an entry that is to be deleted. An index
/// above `i32::MAX` has none.
pub fn delete(index: u32) -> (res: Result<i32, InternalError>)
    ensures
        res is Ok <==> index <= i32::MAX,
        res matches Ok(i) ==> i == index,
        res matches Err(e) ==> e == InternalError::IndexOutOfRange,
{
    if index > 2_147_483_647 {
        return Err(InternalError::IndexOutOfRange);
    }
    Ok(index as i32)
}

} // verus!
