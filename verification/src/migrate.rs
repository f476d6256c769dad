//! Decisions of the data migrations: how a stored record of an older form
//! reads in the current form, and which schema step comes next.

use crate::model::{Entry, EntryState, OldEntryState, Student, StudentState, StudentStatus};
use vstd::prelude::*;

verus! {

/// Number of participants among the first `n` with the given status.
pub open spec fn count_with_status(
    students: Seq<(Student, StudentStatus)>,
    status: StudentStatus,
    n: int,
) -> int
    decreases n,
{
    if n <= 0 {
        0
    } else {
        count_with_status(students, status, n - 1) + if students[n - 1].1 == status {
            1int
        } else {
            0int
        }
    }
}

/// The state in the current form that an older state stands for.
///
/// A successful occurrence at which nobody was present counts as cancelled
/// by the participants if somebody was excused, and as missed if nobody was.
pub open spec fn migrated_state(state: &OldEntryState) -> EntryState {
    match state {
        OldEntryState::Success { students } => {
            let n = students@.len() as int;
            if count_with_status(students@, StudentStatus::Present, n) == 0 {
                if count_with_status(students@, StudentStatus::Pardoned, n) == 0 {
                    EntryState::StudentsMissing
                } else {
                    EntryState::CancelledByStudents
                }
            } else {
                EntryState::Success
            }
        },
        OldEntryState::CancelledByStudents => EntryState::CancelledByStudents,
        OldEntryState::StudentsMissing => EntryState::StudentsMissing,
        OldEntryState::CancelledByTutor => EntryState::CancelledByTutor,
        OldEntryState::Holidays => EntryState::Holidays,
        _ => EntryState::Other,
    }
}

/// Counts the participants with the given status.
pub fn count_status(students: &Vec<(Student, StudentStatus)>, status: StudentStatus) -> (res: usize)
    ensures
        res == count_with_status(students@, status, students@.len() as int),
{
    let mut count: usize = 0;
    let mut k: usize = 0;
    while k < students.len()
        invariant
            k <= students.len(),
            count <= k,
            count == count_with_status(students@, status, k as int),
        decreases students.len() - k,
    {
        if students[k].1 == status {
            count = count + 1;
        }
        k = k + 1;
    }
    count
}

/// Reads an older state in the current form. Invalid data has no current form.
pub fn migrate_state(state: &OldEntryState) -> (res: EntryState)
    requires
        !(state is InvalidData),
    ensures
        res == migrated_state(state),
{
    match state {
        OldEntryState::Success { students } => {
            let present_count = count_status(students, StudentStatus::Present);
            let pardoned_count = count_status(students, StudentStatus::Pardoned);
            if present_count == 0 {
                if pardoned_count == 0 {
                    EntryState::StudentsMissing
                } else {
                    EntryState::CancelledByStudents
                }
            } else {
                EntryState::Success
            }
        },
        OldEntryState::CancelledByStudents => EntryState::CancelledByStudents,
        OldEntryState::StudentsMissing => EntryState::StudentsMissing,
        OldEntryState::CancelledByTutor => EntryState::CancelledByTutor,
        OldEntryState::Holidays => EntryState::Holidays,
        OldEntryState::Other => EntryState::Other,
        OldEntryState::InvalidData => EntryState::Other,
    }
}

/// Name and status of each participant of an older state.
pub open spec fn status_views(students: Seq<(Student, StudentStatus)>) -> Seq<
    (Seq<char>, StudentStatus),
> {
    students.map_values(|p: (Student, StudentStatus)| (p.0@, p.1))
}

/// Name and status of each participant.
pub open spec fn state_views(states: Seq<StudentState>) -> Seq<(Seq<char>, StudentStatus)> {
    states.map_values(|s: StudentState| s.view())
}

/// The participants of an older state in the current form. Only a
/// successful occurrence has participants.
pub fn migrate_students(state: &OldEntryState) -> (res: Option<Vec<StudentState>>)
    ensures
        res is Some <==> state is Success,
        (res, state) matches (Some(list), OldEntryState::Success { students }) ==> state_views(
            list@,
        ) == status_views(students@),
{
    match state {
        OldEntryState::Success { students } => {
            let mut out: Vec<StudentState> = Vec::new();
            let mut k: usize = 0;
            while k < students.len()
                invariant
                    k <= students.len(),
                    state_views(out@) == status_views(students@.take(k as int)),
                decreases students.len() - k,
            {
                let ghost before = out@;
                out.push(
                    StudentState { student: students[k].0.name.clone(), status: students[k].1 },
                );
                proof {
                    assert(state_views(out@) =~= state_views(before).push(
                        (students@[k as int].0@, students@[k as int].1),
                    ));
                    assert(status_views(students@.take(k + 1)) =~= status_views(
                        students@.take(k as int),
                    ).push((students@[k as int].0@, students@[k as int].1)));
                }
                k = k + 1;
            }
            assert(students@.take(k as int) =~= students@);
            Some(out)
        },
        _ => None,
    }
}

/// The status that every participant gets where an entry has a state but
/// no participants: present at a successful occurrence, excused where the
/// participants cancelled, missing where they stayed away. The other states
/// have no participants.
pub open spec fn spec_default_status(state: EntryState) -> Option<StudentStatus> {
    match state {
        EntryState::Success => Some(StudentStatus::Present),
        EntryState::CancelledByStudents => Some(StudentStatus::Pardoned),
        EntryState::StudentsMissing => Some(StudentStatus::Missing),
        _ => None,
    }
}

/// Finds the status that every participant gets where an entry has a state
/// but no participants.
pub fn default_status(state: EntryState) -> (res: Option<StudentStatus>)
    ensures
        res == spec_default_status(state),
{
    match state {
        EntryState::Success => Some(StudentStatus::Present),
        EntryState::CancelledByStudents => Some(StudentStatus::Pardoned),
        EntryState::StudentsMissing => Some(StudentStatus::Missing),
        EntryState::CancelledByTutor | EntryState::Holidays | EntryState::Other => None,
    }
}

/// The participants to store for an entry that has a state but none: the
/// roster of its timeslot with the default status of the state, or nobody.
pub fn default_students(state: EntryState, roster: &Vec<String>) -> (res: Vec<StudentState>)
    ensures
        match spec_default_status(state) {
            None => res@.len() == 0,
            Some(status) => state_views(res@) == roster@.map_values(
                |name: String| (name@, status),
            ),
        },
{
    let mut out: Vec<StudentState> = Vec::new();
    let status = match default_status(state) {
        Some(s) => s,
        None => {
            return out;
        },
    };
    let mut k: usize = 0;
    while k < roster.len()
        invariant
            k <= roster.len(),
            state_views(out@) == roster@.take(k as int).map_values(|name: String| (name@, status)),
        decreases roster.len() - k,
    {
        let ghost before = out@;
        out.push(StudentState { student: roster[k].clone(), status });
        proof {
            assert(state_views(out@) =~= state_views(before).push((roster@[k as int]@, status)));
            assert(roster@.take(k + 1).map_values(|name: String| (name@, status))
                =~= roster@.take(k as int).map_values(|name: String| (name@, status)).push(
                (roster@[k as int]@, status),
            ));
        }
        k = k + 1;
    }
    assert(roster@.take(k as int) =~= roster@);
    out
}

/// The state in the current form that a stored entry has or stands for:
/// its own, or else the one that its older state stands for. Invalid data
/// and an entry without any state have none.
pub open spec fn current_state(e: &Entry) -> Option<EntryState> {
    match e.state_enum {
        Some(state) => Some(state),
        None => match e.state {
            Some(old) => if old is InvalidData {
                None
            } else {
                Some(migrated_state(&old))
            },
            None => None,
        },
    }
}

/// Name and status of each participant that a stored entry in the current
/// form has: its own participants, or else those of its older state, or else
/// the roster of its timeslot with the default status of its state.
pub open spec fn current_students(e: &Entry, state: EntryState, roster: Seq<String>) -> Seq<
    (Seq<char>, StudentStatus),
> {
    match e.students {
        Some(students) => state_views(students@),
        None => match (e.state_enum, e.state) {
            (None, Some(OldEntryState::Success { students })) => status_views(students@),
            _ => match spec_default_status(state) {
                Some(status) => roster.map_values(|name: String| (name@, status)),
                None => Seq::empty(),
            },
        },
    }
}

/// Brings a stored entry of any age into the current form, given the
/// roster of its timeslot: with a state and a list of participants, and
/// without an older state. An entry whose only state is invalid data, or that
/// has no state, has no current form.
pub fn current_form(e: Entry, roster: &Vec<String>) -> (res: Option<Entry>)
    ensures
        res is Some <==> current_state(&e) is Some,
        res matches Some(n) ==> {
            &&& n.user_id == e.user_id
            &&& n.index == e.index
            &&& n.timeslot_id == e.timeslot_id
            &&& n.state is None
            &&& n.state_enum == current_state(&e)
            &&& n.students matches Some(students) && state_views(students@) == current_students(
                &e,
                current_state(&e).unwrap(),
                roster@,
            )
        },
{
    let (state_enum, from_old) = match e.state_enum {
        Some(state) => (state, None),
        None => match &e.state {
            Some(old) => {
                if let OldEntryState::InvalidData = old {
                    return None;
                }
                (migrate_state(old), migrate_students(old))
            },
            None => {
                return None;
            },
        },
    };
    let students = match e.students {
        Some(students) => students,
        None => match from_old {
            Some(students) => students,
            None => {
                let filled = default_students(state_enum, roster);
                assert(state_views(filled@) =~= current_students(&e, state_enum, roster@));
                filled
            },
        },
    };
    Some(
        Entry {
            user_id: e.user_id,
            index: e.index,
            timeslot_id: e.timeslot_id,
            state: None,
            state_enum: Some(state_enum),
            students: Some(students),
        },
    )
}

/// A step that brings the schema from one generation to the next.
#[derive(Debug, Clone, Copy, PartialEq, Eq, Structural)]
pub enum MigrationStep {
    AddTimeslotIndex,
    AddEntriesIndex,
    AddTimezoneField,
    DropEntriesIndex,
    AddEntriesUserIndex,
}

/// The last generation that has a step.
pub const FINAL_GENERATION: u32 = 4;

/// The step that leads on from a generation, or `None` once the schema is
/// current.
pub fn migration_step(generation: u32) -> (res: Option<MigrationStep>)
    ensures
        res is Some <==> generation <= FINAL_GENERATION,
        res == match generation {
            0 => Some(MigrationStep::AddTimeslotIndex),
            1 => Some(MigrationStep::AddEntriesIndex),
            2 => Some(MigrationStep::AddTimezoneField),
            3 => Some(MigrationStep::DropEntriesIndex),
            4 => Some(MigrationStep::AddEntriesUserIndex),
            _ => None::<MigrationStep>,
        },
{
    match generation {
        0 => Some(MigrationStep::AddTimeslotIndex),
        1 => Some(MigrationStep::AddEntriesIndex),
        2 => Some(MigrationStep::AddTimezoneField),
        3 => Some(MigrationStep::DropEntriesIndex),
        4 => Some(MigrationStep::AddEntriesUserIndex),
        _ => None,
    }
}

/// What the migration does after a step, given the generation it worked on
/// and the generation that is stored now.
#[derive(Debug, Clone, Copy, PartialEq, Eq, Structural)]
pub enum MigrationAction {
    /// Store this generation and go on from it.
    Advance(u32),
    /// Another process changed the generation: stop.
    Abort,
}

/// Decides how to go on after a step: if the stored generation is still the
/// one that was worked on, the next generation is stored; otherwise another
/// process is migrating too, and this one stops.
pub fn after_step(generation: u32, stored: u32) -> (res: MigrationAction)
    requires
        generation <= FINAL_GENERATION,
    ensures
        res == if generation == stored {
            MigrationAction::Advance((generation + 1) as u32)
        } else {
            MigrationAction::Abort
        },
{
    if generation != stored {
        MigrationAction::Abort
    } else {
        MigrationAction::Advance(generation + 1)
    }
}

/// The generation that a stored text stands for: without a text it is 0.
pub fn generation_or_default(stored: Option<u32>) -> (res: u32)
    ensures
        res == match stored {
            Some(g) => g,
            None => 0u32,
        },
{
    match stored {
        Some(g) => g,
        None => 0,
    }
}

} // verus!
