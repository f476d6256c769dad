//! The sentence that describes one entry in an export.

use crate::model::{EntryState, StudentState, StudentStatus};
use vstd::prelude::*;
use vstd::string::StringExecFns;

verus! {

/// The texts of a list of strings, in order.
pub open spec fn texts(strings: Seq<String>) -> Seq<Seq<char>> {
    strings.map_values(|s: String| s@)
}

/// The given texts in order, with `separator` between neighbours.
pub open spec fn joined(parts: Seq<Seq<char>>, separator: Seq<char>) -> Seq<char>
    decreases parts.len(),
{
    if parts.len() == 0 {
        Seq::empty()
    } else if parts.len() == 1 {
        parts[0]
    } else {
        joined(parts.drop_last(), separator) + separator + parts.last()
    }
}

/// The names of the participants with the given status, in order.
pub open spec fn names_with_status(states: Seq<StudentState>, status: StudentStatus) -> Seq<
    Seq<char>,
>
    decreases states.len(),
{
    if states.len() == 0 {
        Seq::empty()
    } else {
        let rest = names_with_status(states.drop_last(), status);
        if states.last().status == status {
            rest.push(states.last().student@)
        } else {
            rest
        }
    }
}

/// The participants of an entry, grouped by their status.
#[derive(Debug)]
pub struct StatusMap {
    pub present: Vec<String>,
    pub pardoned: Vec<String>,
    pub missing: Vec<String>,
}

impl StatusMap {
    /// The names with the given status, or `None` where there is none.
    pub fn get(&self, status: StudentStatus) -> (res: Option<&Vec<String>>)
        ensures
            res == self.spec_get(status),
    {
        let names = match status {
            StudentStatus::Present => &self.present,
            StudentStatus::Pardoned => &self.pardoned,
            StudentStatus::Missing => &self.missing,
        };
        if names.len() == 0 {
            None
        } else {
            Some(names)
        }
    }

    /// The names with the given status, or `None` where there is none.
    pub open spec fn spec_get(&self, status: StudentStatus) -> Option<&Vec<String>> {
        let names = match status {
            StudentStatus::Present => &self.present,
            StudentStatus::Pardoned => &self.pardoned,
            StudentStatus::Missing => &self.missing,
        };
        if names@.len() == 0 {
            None
        } else {
            Some(names)
        }
    }
}

/// Groups the participants of an entry by their status, each group in the
/// order of the list.
pub fn seperate_status_map(students: &[StudentState]) -> (res: StatusMap)
    ensures
        texts(res.present@) == names_with_status(students@, StudentStatus::Present),
        texts(res.pardoned@) == names_with_status(students@, StudentStatus::Pardoned),
        texts(res.missing@) == names_with_status(students@, StudentStatus::Missing),
{
    let mut present: Vec<String> = Vec::new();
    let mut pardoned: Vec<String> = Vec::new();
    let mut missing: Vec<String> = Vec::new();
    let mut k: usize = 0;
    assert(students@.take(0) =~= Seq::<StudentState>::empty());
    assert(texts(present@) =~= Seq::<Seq<char>>::empty());
    while k < students.len()
        invariant
            k <= students.len(),
            texts(present@) == names_with_status(students@.take(k as int), StudentStatus::Present),
            texts(pardoned@) == names_with_status(
                students@.take(k as int),
                StudentStatus::Pardoned,
            ),
            texts(missing@) == names_with_status(students@.take(k as int), StudentStatus::Missing),
        decreases students.len() - k,
    {
        let ghost old_present = present@;
        let ghost old_pardoned = pardoned@;
        let ghost old_missing = missing@;
        proof {
            assert(students@.take(k + 1).drop_last() =~= students@.take(k as int));
        }
        let name = students[k].student.clone();
        match students[k].status {
            StudentStatus::Present => {
                present.push(name);
                assert(texts(present@) =~= texts(old_present).push(name@));
            },
            StudentStatus::Pardoned => {
                pardoned.push(name);
                assert(texts(pardoned@) =~= texts(old_pardoned).push(name@));
            },
            StudentStatus::Missing => {
                missing.push(name);
                assert(texts(missing@) =~= texts(old_missing).push(name@));
            },
        }
        k = k + 1;
    }
    assert(students@.take(k as int) =~= students@);
    StatusMap { present, pardoned, missing }
}

/// Writes a list of names with a comma and a space between neighbours.
pub fn format_students(students: &[String]) -> (res: String)
    ensures
        res@ == joined(texts(students@), ", "@),
{
    let mut out = String::new();
    let mut k: usize = 0;
    assert(texts(students@).take(0) =~= Seq::<Seq<char>>::empty());
    while k < students.len()
        invariant
            k <= students.len(),
            out@ == joined(texts(students@).take(k as int), ", "@),
        decreases students.len() - k,
    {
        proof {
            let parts = texts(students@);
            assert(parts.take(k + 1).drop_last() =~= parts.take(k as int));
            assert(parts.take(k + 1).last() == students@[k as int]@);
            if k == 0 {
                assert(parts.take(1)[0] == students@[0]@);
                assert(Seq::<char>::empty() + students@[0]@ =~= students@[0]@);
            }
        }
        if k > 0 {
            out.append(", ");
        }
        out.append(students[k].as_str());
        k = k + 1;
    }
    assert(texts(students@).take(k as int) =~= texts(students@));
    out
}

/// The names with a status, written as a list, or `None` where there is none.
pub open spec fn listed(states: Seq<StudentState>, status: StudentStatus) -> Option<Seq<char>> {
    let names = names_with_status(states, status);
    if names.len() == 0 {
        None
    } else {
        Some(joined(names, ", "@))
    }
}

/// The main clause of the sentence for an entry.
pub open spec fn base_sentence(
    state_enum: EntryState,
    students: Seq<StudentState>,
    all_students: Seq<char>,
) -> Seq<char> {
    match state_enum {
        EntryState::Success => "Unterricht mit "@ + (match listed(students, StudentStatus::Present) {
            Some(present) => present,
            None => all_students,
        }) + " hat planmäßig und erfolgreich stattgefunden."@,
        EntryState::CancelledByStudents => "Unterricht mit "@ + listed(
            students,
            StudentStatus::Pardoned,
        ).unwrap() + " wurde vom Matrosen abgesagt und nicht nachgeholt."@,
        EntryState::CancelledByTutor => "Unterricht mit "@ + all_students
            + " wurde von mir abgesagt und nicht nachgeholt."@,
        EntryState::StudentsMissing => "Unterricht mit "@ + all_students
            + " konnte nicht stattfinden. Matrose(n) fehlte(n) unentschuldigt!"@,
        EntryState::Holidays => "Ferien"@,
        EntryState::Other => "Unterricht mit "@ + all_students
            + " konnte aus unbekannten Gründen nicht stattfinden."@,
    }
}

/// The remark on the participants who were excused, if there are any.
pub open spec fn pardoned_remark(students: Seq<StudentState>) -> Seq<char> {
    match listed(students, StudentStatus::Pardoned) {
        Some(names) => " ("@ + names + " entschuldigt)"@,
        None => Seq::empty(),
    }
}

/// The remark on the participants who stayed away, if there are any.
pub open spec fn missing_remark(students: Seq<StudentState>) -> Seq<char> {
    match listed(students, StudentStatus::Missing) {
        Some(names) => " ("@ + names + " fehlte(n) unentschuldigt)"@,
        None => Seq::empty(),
    }
}

/// The sentence for an entry: the main clause for its state, then the
/// remarks on excused and on absent participants.
pub open spec fn entry_sentence(
    state_enum: EntryState,
    students: Seq<StudentState>,
    timeslot_students: Seq<String>,
) -> Seq<char> {
    base_sentence(state_enum, students, joined(texts(timeslot_students), ", "@))
        + pardoned_remark(students) + missing_remark(students)
}

/// Writes the sentence that describes an entry in an export.
///
/// An entry that the participants cancelled must name at least one of them
/// as excused.
pub fn format_entry(
    state_enum: EntryState,
    students: &[StudentState],
    timeslot_students: &[String],
) -> (res: String)
    requires
        state_enum == EntryState::CancelledByStudents ==> listed(
            students@,
            StudentStatus::Pardoned,
        ) is Some,
    ensures
        res@ == entry_sentence(state_enum, students@, timeslot_students@),
{
    let all_students = format_students(timeslot_students);
    let status_map = seperate_status_map(students);
    let present_students = match status_map.get(StudentStatus::Present) {
        Some(s) => Some(format_students(s.as_slice())),
        None => None,
    };
    let pardoned_students = match status_map.get(StudentStatus::Pardoned) {
        Some(s) => Some(format_students(s.as_slice())),
        None => None,
    };
    let missing_students = match status_map.get(StudentStatus::Missing) {
        Some(s) => Some(format_students(s.as_slice())),
        None => None,
    };
    assert(spec_text(present_students) == listed(students@, StudentStatus::Present));
    assert(spec_text(pardoned_students) == listed(students@, StudentStatus::Pardoned));
    assert(spec_text(missing_students) == listed(students@, StudentStatus::Missing));
    let mut out = String::new();
    match state_enum {
        EntryState::Success => {
            out.append("Unterricht mit ");
            match &present_students {
                Some(present) => out.append(present.as_str()),
                None => out.append(all_students.as_str()),
            }
            out.append(" hat planmäßig und erfolgreich stattgefunden.");
        },
        EntryState::CancelledByStudents => {
            out.append("Unterricht mit ");
            match &pardoned_students {
                Some(pardoned) => out.append(pardoned.as_str()),
                None => {},
            }
            out.append(" wurde vom Matrosen abgesagt und nicht nachgeholt.");
        },
        EntryState::CancelledByTutor => {
            out.append("Unterricht mit ");
            out.append(all_students.as_str());
            out.append(" wurde von mir abgesagt und nicht nachgeholt.");
        },
        EntryState::StudentsMissing => {
            out.append("Unterricht mit ");
            out.append(all_students.as_str());
            out.append(" konnte nicht stattfinden. Matrose(n) fehlte(n) unentschuldigt!");
        },
        EntryState::Holidays => {
            out.append("Ferien");
        },
        EntryState::Other => {
            out.append("Unterricht mit ");
            out.append(all_students.as_str());
            out.append(" konnte aus unbekannten Gründen nicht stattfinden.");
        },
    }
    assert(out@ =~= base_sentence(state_enum, students@, all_students@));
    match &pardoned_students {
        Some(names) => {
            out.append(" (");
            out.append(names.as_str());
            out.append(" entschuldigt)");
        },
        None => {},
    }
    assert(out@ =~= base_sentence(state_enum, students@, all_students@) + pardoned_remark(
        students@,
    ));
    match &missing_students {
        Some(names) => {
            out.append(" (");
            out.append(names.as_str());
            out.append(" fehlte(n) unentschuldigt)");
        },
        None => {},
    }
    assert(out@ =~= entry_sentence(state_enum, students@, timeslot_students@));
    out
}

/// The text of an optional string.
pub open spec fn spec_text(text: Option<String>) -> Option<Seq<char>> {
    match text {
        Some(t) => Some(t@),
        None => None,
    }
}

} // verus!
