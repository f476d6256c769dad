//! The records that the engine works on: timeslots, entries and their parts.

use crate::calendar::{weekday_of, Date, TimeOfDay, Weekday, MAX_DAY, MIN_DAY};
use crate::zone::{timezone_exists, timezone_is_known};
use core::ops::Range;
use crate::text::{decimal_text, format_decimal, format_uuid, uuid_text};
use vstd::prelude::*;
use vstd::string::StringExecFns;

verus! {

/// A participant who is enrolled in a timeslot.
#[derive(Debug, PartialEq, Eq, Hash)]
pub struct Student {
    pub name: String,
}

impl View for Student {
    type V = Seq<char>;

    open spec fn view(&self) -> Seq<char> {
        self.name@
    }
}

impl Clone for Student {
    fn clone(&self) -> (res: Student)
        ensures
            res@ == self@,
    {
        Student { name: self.name.clone() }
    }
}

/// How one participant took part in an occurrence.
#[derive(Debug, Hash, PartialEq, Eq, Clone, Copy, Structural)]
pub enum StudentStatus {
    Present,
    Pardoned,
    Missing,
}

/// The status of one named participant.
#[derive(Debug)]
pub struct StudentState {
    pub student: String,
    pub status: StudentStatus,
}

impl StudentState {
    /// The name and the status as plain values.
    pub open spec fn view(&self) -> (Seq<char>, StudentStatus) {
        (self.student@, self.status)
    }
}

impl Clone for StudentState {
    fn clone(&self) -> (res: StudentState)
        ensures
            res.view() == self.view(),
    {
        StudentState { student: self.student.clone(), status: self.status }
    }
}

/// A number that stands for no variant.
#[derive(Debug, PartialEq, Eq, Clone, Copy, Structural)]
pub enum IntoEnumError {
    InvalidValue,
}

impl StudentStatus {
    /// The status that a stored number stands for.
    pub open spec fn spec_try_from(value: u8) -> Result<StudentStatus, IntoEnumError> {
        if value == 0 {
            Ok(StudentStatus::Present)
        } else if value == 1 {
            Ok(StudentStatus::Pardoned)
        } else if value == 2 {
            Ok(StudentStatus::Missing)
        } else {
            Err(IntoEnumError::InvalidValue)
        }
    }

    /// Decodes a stored number: 0, 1 and 2 are the three statuses in order of
    /// declaration, every other number is invalid.
    pub fn try_from(value: u8) -> (res: Result<StudentStatus, IntoEnumError>)
        ensures
            res == Self::spec_try_from(value),
    {
        match value {
            0 => Ok(StudentStatus::Present),
            1 => Ok(StudentStatus::Pardoned),
            2 => Ok(StudentStatus::Missing),
            _ => Err(IntoEnumError::InvalidValue),
        }
    }
}

/// Start and end of a session as stored, both as local times of day.
#[derive(Debug, Clone, Copy, PartialEq, Eq, Structural)]
pub struct DbTime {
    pub beginning: TimeOfDay,
    pub finish: TimeOfDay,
}

/// First and last date of a timeslot as stored, both inclusive.
#[derive(Debug, Clone, Copy, PartialEq, Eq, Structural)]
pub struct DbTimerange {
    pub beginning: Date,
    pub finish: Date,
}

/// A timeslot as it is stored.
#[derive(Debug)]
pub struct TimeSlot {
    pub user_id: String,
    pub id: u128,
    pub subject: String,
    pub students: Vec<String>,
    pub time: DbTime,
    pub timerange: DbTimerange,
    pub timezone: String,
}

/// What happened at one occurrence.
#[derive(Debug, Clone, Copy, PartialEq, Eq, Structural)]
pub enum EntryState {
    Success,
    CancelledByStudents,
    StudentsMissing,
    CancelledByTutor,
    Holidays,
    Other,
}

/// What happened at one occurrence, in the form that carries the
/// participants' statuses inside the successful case.
#[derive(Debug)]
pub enum OldEntryState {
    Success { students: Vec<(Student, StudentStatus)> },
    CancelledByStudents,
    StudentsMissing,
    CancelledByTutor,
    Holidays,
    Other,
    InvalidData,
}

/// An entry as it is stored.
#[derive(Debug)]
pub struct Entry {
    pub user_id: String,
    pub index: i32,
    pub timeslot_id: u128,
    pub state: Option<OldEntryState>,
    pub state_enum: Option<EntryState>,
    pub students: Option<Vec<StudentState>>,
}

/// A recurring weekly commitment.
///
/// The first occurrence is on `timerange.start`; `timerange.end` is the last
/// date on which an occurrence may fall. Times of day are local to `timezone`,
/// an IANA identifier.
#[derive(Debug)]
pub struct WebTimeSlot {
    pub user_id: String,
    pub id: u128,
    pub subject: String,
    pub students: Vec<String>,
    pub time: Range<TimeOfDay>,
    pub timerange: Range<Date>,
    pub weekday: Weekday,
    pub timezone: String,
}

impl WebTimeSlot {
    /// The dates and times are representable and ordered, and the weekday is
    /// that of the first date.
    pub open spec fn wf(&self) -> bool {
        &&& self.time.start.wf()
        &&& self.time.end.wf()
        &&& self.time.start.secs <= self.time.end.secs
        &&& self.timerange.start.wf()
        &&& self.timerange.end.wf()
        &&& self.timerange.start.day <= self.timerange.end.day
        &&& self.weekday == weekday_of(self.timerange.start.day as int)
    }

    /// Tests whether the timeslot is well-formed.
    pub fn is_well_formed(&self) -> (res: bool)
        ensures
            res == self.wf(),
    {
        self.time.start.secs < 86_400 && self.time.end.secs < 86_400 && self.time.start.secs
            <= self.time.end.secs && MIN_DAY <= self.timerange.start.day
            && self.timerange.start.day <= MAX_DAY && MIN_DAY <= self.timerange.end.day
            && self.timerange.end.day <= MAX_DAY && self.timerange.start.day
            <= self.timerange.end.day && self.weekday == self.timerange.start.weekday()
    }
}

/// The timeslot that a stored row stands for, given that its zone is known.
pub open spec fn spec_convert_ts(ts: TimeSlot) -> WebTimeSlot {
    WebTimeSlot {
        user_id: ts.user_id,
        id: ts.id,
        subject: ts.subject,
        students: ts.students,
        time: Range { start: ts.time.beginning, end: ts.time.finish },
        timerange: Range { start: ts.timerange.beginning, end: ts.timerange.finish },
        weekday: weekday_of(ts.timerange.beginning.day as int),
        timezone: ts.timezone,
    }
}

/// Turns a stored row into a timeslot. A row whose timezone identifier is
/// unknown gives `None`; the weekday is taken from the first date.
pub fn convert_ts(ts: TimeSlot) -> (res: Option<WebTimeSlot>)
    ensures
        res is Some <==> timezone_exists(ts.timezone@),
        res matches Some(w) ==> w == spec_convert_ts(ts),
{
    if !timezone_is_known(ts.timezone.as_str()) {
        return None;
    }
    let weekday = ts.timerange.beginning.weekday();
    Some(
        WebTimeSlot {
            user_id: ts.user_id,
            id: ts.id,
            subject: ts.subject,
            students: ts.students,
            time: Range { start: ts.time.beginning, end: ts.time.finish },
            timerange: Range { start: ts.timerange.beginning, end: ts.timerange.finish },
            weekday,
            timezone: ts.timezone,
        },
    )
}

/// An entry as the engine uses it.
#[derive(Debug)]
pub struct WebEntry {
    pub user_id: String,
    pub index: u32,
    pub timeslot_id: u128,
    pub state: EntryState,
    pub students: Vec<StudentState>,
}

/// Turns a stored entry into the form the engine uses. A negative index
/// gives `None`. The state and the participants must be present.
pub fn convert_entry(e: Entry) -> (res: Option<WebEntry>)
    requires
        e.state_enum is Some,
        e.students is Some,
    ensures
        res is Some <==> e.index >= 0,
        res matches Some(w) ==> w.user_id == e.user_id && w.index == e.index && w.timeslot_id
            == e.timeslot_id && Some(w.state) == e.state_enum && Some(w.students) == e.students,
{
    if e.index < 0 {
        return None;
    }
    let index: u32 = e.index as u32;
    Some(
        WebEntry {
            user_id: e.user_id,
            index,
            timeslot_id: e.timeslot_id,
            state: e.state_enum.unwrap(),
            students: e.students.unwrap(),
        },
    )
}

/// A record that belongs to one user.
pub trait HasUserId {
    /// The identifier of the owning user, as a sequence of characters.
    spec fn owner(&self) -> Seq<char>;

    /// The identifier of the owning user.
    fn user_id(&self) -> (res: &str)
        ensures
            res@ == self.owner(),
    ;

    /// A short text that names the record in a log.
    fn identifier(&self) -> String;
}

impl HasUserId for WebTimeSlot {
    open spec fn owner(&self) -> Seq<char> {
        self.user_id@
    }

    fn user_id(&self) -> (res: &str) {
        self.user_id.as_str()
    }

    fn identifier(&self) -> (res: String)
        ensures
            res@ == "timeslot: "@ + uuid_text(self.id),
    {
        let mut text = "timeslot: ".to_owned();
        text.append(format_uuid(self.id).as_str());
        text
    }
}

impl HasUserId for WebEntry {
    open spec fn owner(&self) -> Seq<char> {
        self.user_id@
    }

    fn user_id(&self) -> (res: &str) {
        self.user_id.as_str()
    }

    fn identifier(&self) -> (res: String)
        ensures
            res@ == "entry: "@ + uuid_text(self.timeslot_id) + "-"@ + decimal_text(
                self.index as int,
            ),
    {
        let mut text = "entry: ".to_owned();
        text.append(format_uuid(self.timeslot_id).as_str());
        text.append("-");
        text.append(format_decimal(self.index as u64).as_str());
        text
    }
}

} // verus!
