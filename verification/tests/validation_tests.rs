use chrono::{Datelike, NaiveDate};
use lelo::auth::{
    check_object_belong_to_userid, compose_user_id, extract_session_id, verify,
    verify_authenticated, verify_session, verify_session_expiry, AuthError, AuthenticatorError,
    ForeignObject, Session, SessionStatus, UserId,
};
use lelo::calendar::{Date, TimeOfDay, Weekday};
use lelo::entry::verify_state;
use lelo::export::{format_entry, format_students, seperate_status_map};
use lelo::isoweek::IsoWeek;
use lelo::model::{
    convert_entry, convert_ts, DbTime, DbTimerange, Entry, EntryState, HasUserId, IntoEnumError,
    OldEntryState, Student, StudentState, StudentStatus, TimeSlot, WebEntry, WebTimeSlot,
};
use lelo::timeslot::{
    create, expected_entry_count, get_index_range_timeslot, index_range_for_dates,
    TimeslotCreate, TimeslotCreateError,
};
use lelo::util::create_isoweek;

fn date(year: i32, month: u32, day: u32) -> Date {
    Date { day: NaiveDate::from_ymd_opt(year, month, day).unwrap().num_days_from_ce() }
}

fn student(name: &str) -> Student {
    Student { name: name.to_string() }
}

fn state(name: &str, status: StudentStatus) -> StudentState {
    StudentState { student: name.to_string(), status }
}

fn monday_timeslot() -> WebTimeSlot {
    WebTimeSlot {
        user_id: "issuer:alice".to_string(),
        id: 0x0123_4567_89ab_cdef_0123_4567_89ab_cdef,
        subject: "Maths".to_string(),
        students: vec!["Anna".to_string(), "Ben".to_string()],
        time: TimeOfDay { secs: 0 }..TimeOfDay { secs: 3600 },
        timerange: date(2024, 1, 1)..date(2024, 1, 29),
        weekday: Weekday::Mon,
        timezone: "UTC".to_string(),
    }
}

#[test]
fn verify_state_reports_unknown_participants() {
    let roster = vec![student("Anna"), student("Ben")];
    let reported = OldEntryState::Success {
        students: vec![
            (student("Anna"), StudentStatus::Present),
            (student("Carla"), StudentStatus::Missing),
        ],
    };
    assert_eq!(verify_state(&reported, &roster), Err(vec![student("Carla")]));
}

#[test]
fn verify_state_accepts_known_participants() {
    let roster = vec![student("Anna"), student("Ben")];
    let reported = OldEntryState::Success {
        students: vec![
            (student("Ben"), StudentStatus::Pardoned),
            (student("Anna"), StudentStatus::Present),
        ],
    };
    assert_eq!(verify_state(&reported, &roster), Ok(()));
    let nobody = OldEntryState::Success { students: vec![] };
    assert_eq!(verify_state(&nobody, &roster), Ok(()));
    assert_eq!(verify_state(&nobody, &[]), Ok(()));
}

#[test]
fn verify_state_keeps_order_and_repetitions() {
    let roster = vec![student("Anna")];
    let reported = OldEntryState::Success {
        students: vec![
            (student("Zoe"), StudentStatus::Present),
            (student("Anna"), StudentStatus::Present),
            (student("Carla"), StudentStatus::Missing),
            (student("Zoe"), StudentStatus::Missing),
        ],
    };
    assert_eq!(
        verify_state(&reported, &roster),
        Err(vec![student("Zoe"), student("Carla"), student("Zoe")])
    );
}

#[test]
fn verify_state_passes_states_without_participants() {
    let roster = vec![student("Anna")];
    assert_eq!(verify_state(&OldEntryState::CancelledByStudents, &roster), Ok(()));
    assert_eq!(verify_state(&OldEntryState::CancelledByTutor, &roster), Ok(()));
    assert_eq!(verify_state(&OldEntryState::StudentsMissing, &roster), Ok(()));
    assert_eq!(verify_state(&OldEntryState::Holidays, &roster), Ok(()));
    assert_eq!(verify_state(&OldEntryState::Other, &roster), Ok(()));
    assert_eq!(verify_state(&OldEntryState::InvalidData, &[]), Ok(()));
}

#[test]
fn index_range_for_two_weeks_of_five() {
    let ts = monday_timeslot();
    let start = create_isoweek(2024, 2).unwrap();
    let end = create_isoweek(2024, 3).unwrap();
    let range = get_index_range_timeslot(&ts, start..end).unwrap();
    assert_eq!(range, 1..2);
    assert_eq!(expected_entry_count(&range), 2);
}

#[test]
fn index_range_is_clamped_to_the_timeslot() {
    let ts = monday_timeslot();
    let range = |a: (i32, u32), b: (i32, u32)| {
        get_index_range_timeslot(
            &ts,
            IsoWeek { year: a.0, week: a.1 }..IsoWeek { year: b.0, week: b.1 },
        )
    };
    assert_eq!(range((2023, 40), (2024, 30)), Some(0..4));
    assert_eq!(range((2024, 1), (2024, 1)), Some(0..0));
    assert_eq!(range((2024, 5), (2024, 9)), Some(4..4));
    assert_eq!(range((2023, 50), (2024, 1)), Some(0..0));
}

#[test]
fn index_range_outside_the_timeslot_is_absent() {
    let ts = monday_timeslot();
    let range = |a: (i32, u32), b: (i32, u32)| {
        get_index_range_timeslot(
            &ts,
            IsoWeek { year: a.0, week: a.1 }..IsoWeek { year: b.0, week: b.1 },
        )
    };
    // Ends before the first date.
    assert_eq!(range((2023, 40), (2023, 52)), None);
    // Starts in a week after the last date.
    assert_eq!(range((2024, 10), (2024, 11)), None);
    // Runs backwards.
    assert_eq!(range((2024, 3), (2024, 2)), None);
    // Years outside the calendar.
    assert_eq!(range((i32::MIN, 1), (2024, 2)), None);
    assert_eq!(range((2024, 1), (i32::MAX, 2)), None);
    // Weeks that no year has.
    assert_eq!(range((2024, 0), (2024, 2)), None);
    assert_eq!(range((2024, 1), (2024, 53)), None);
    assert_eq!(range((2024, 1), (2024, 54)), None);
}

#[test]
fn index_range_for_dates_counts_whole_weeks() {
    let ts = monday_timeslot();
    assert_eq!(index_range_for_dates(&ts, date(2024, 1, 8), date(2024, 1, 21)), Some(1..2));
    assert_eq!(index_range_for_dates(&ts, date(2024, 1, 7), date(2024, 1, 7)), Some(0..0));
    assert_eq!(index_range_for_dates(&ts, date(2023, 1, 1), date(2023, 12, 31)), None);
    assert_eq!(index_range_for_dates(&ts, date(2023, 1, 1), date(2024, 1, 1)), Some(0..0));
    assert_eq!(index_range_for_dates(&ts, date(2024, 1, 29), date(2025, 1, 1)), Some(4..4));
}

#[test]
fn create_isoweek_knows_the_weeks_of_a_year() {
    assert_eq!(create_isoweek(2024, 1), Some(IsoWeek { year: 2024, week: 1 }));
    assert_eq!(create_isoweek(2024, 52), Some(IsoWeek { year: 2024, week: 52 }));
    assert_eq!(create_isoweek(2024, 53), None);
    assert_eq!(create_isoweek(2020, 53), Some(IsoWeek { year: 2020, week: 53 }));
    assert_eq!(create_isoweek(2024, 0), None);
    assert_eq!(create_isoweek(400_000, 10), None);
    assert_eq!(create_isoweek(-400_000, 10), None);
    assert_eq!(create_isoweek(i32::MIN, 1), None);
    assert_eq!(create_isoweek(i32::MAX, 1), None);
    assert_eq!(create_isoweek(i32::MIN, 53), None);
    assert_eq!(create_isoweek(i32::MAX, 52), None);
    // The first week of the year after the calendar's last begins in its last year.
    assert_eq!(create_isoweek(262_143, 1), Some(IsoWeek { year: 262_143, week: 1 }));
    assert_eq!(create_isoweek(262_143, 2), None);
    assert_eq!(create_isoweek(262_144, 1), None);
    assert_eq!(create_isoweek(-262_145, 52), None);
    assert_eq!(create_isoweek(-262_144, 52), None);
    assert_eq!(create_isoweek(262_142, 1), Some(IsoWeek { year: 262_142, week: 1 }));
    assert_eq!(create_isoweek(2024, u32::MAX), None);
}

#[test]
fn iso_weeks_are_ordered_by_year_then_week() {
    let a = IsoWeek { year: 2023, week: 52 };
    let b = IsoWeek { year: 2024, week: 1 };
    let c = IsoWeek { year: 2024, week: 2 };
    assert!(a.lt(&b));
    assert!(b.lt(&c));
    assert!(!c.lt(&b));
    assert!(!b.lt(&b));
}

#[test]
fn student_status_from_number() {
    assert_eq!(StudentStatus::try_from(0), Ok(StudentStatus::Present));
    assert_eq!(StudentStatus::try_from(1), Ok(StudentStatus::Pardoned));
    assert_eq!(StudentStatus::try_from(2), Ok(StudentStatus::Missing));
    assert_eq!(StudentStatus::try_from(3), Err(IntoEnumError::InvalidValue));
    assert_eq!(StudentStatus::try_from(255), Err(IntoEnumError::InvalidValue));
}

fn stored_timeslot(timezone: &str) -> TimeSlot {
    TimeSlot {
        user_id: "issuer:alice".to_string(),
        id: 9,
        subject: "Maths".to_string(),
        students: vec!["Anna".to_string()],
        time: DbTime { beginning: TimeOfDay { secs: 3600 }, finish: TimeOfDay { secs: 7200 } },
        timerange: DbTimerange { beginning: date(2024, 1, 3), finish: date(2024, 2, 28) },
        timezone: timezone.to_string(),
    }
}

#[test]
fn convert_ts_takes_the_weekday_from_the_first_date() {
    let web = convert_ts(stored_timeslot("Europe/Berlin")).unwrap();
    assert_eq!(web.weekday, Weekday::Wed);
    assert_eq!(web.timerange, date(2024, 1, 3)..date(2024, 2, 28));
    assert_eq!(web.time, TimeOfDay { secs: 3600 }..TimeOfDay { secs: 7200 });
    assert_eq!(web.timezone, "Europe/Berlin");
    assert_eq!(web.user_id, "issuer:alice");
    assert_eq!(web.id, 9);
    assert_eq!(web.students, vec!["Anna".to_string()]);
}

#[test]
fn convert_ts_refuses_an_unknown_timezone() {
    assert!(convert_ts(stored_timeslot("Europe/Atlantis")).is_none());
    assert!(convert_ts(stored_timeslot("")).is_none());
    assert!(convert_ts(stored_timeslot("UTC")).is_some());
}

#[test]
fn convert_entry_refuses_a_negative_index() {
    let entry = |index: i32| Entry {
        user_id: "u".to_string(),
        index,
        timeslot_id: 1,
        state: None,
        state_enum: Some(EntryState::Holidays),
        students: Some(vec![state("Anna", StudentStatus::Present)]),
    };
    assert!(convert_entry(entry(-1)).is_none());
    let web = convert_entry(entry(3)).unwrap();
    assert_eq!(web.index, 3);
    assert_eq!(web.state, EntryState::Holidays);
    assert_eq!(web.students.len(), 1);
    assert_eq!(convert_entry(entry(0)).unwrap().index, 0);
    assert_eq!(convert_entry(entry(i32::MAX)).unwrap().index, i32::MAX as u32);
}

fn request(weekday: Weekday, first: Date, last: Date, from: u32, to: u32) -> TimeslotCreate {
    TimeslotCreate {
        students: vec![student("Anna"), student("Ben")],
        subject: "Maths".to_string(),
        weekday,
        time: TimeOfDay { secs: from }..TimeOfDay { secs: to },
        timerange: first..last,
        timezone: "Europe/Berlin".to_string(),
    }
}

#[test]
fn create_refuses_broken_rules_in_order() {
    let u = UserId::new("issuer:alice".to_string());
    let r = request(Weekday::Tue, date(2024, 1, 1), date(2023, 1, 1), 10, 5);
    assert_eq!(create(&u, 1, r).err(), Some(TimeslotCreateError::TimerangeStartShouldBeWeekday));
    let r = request(Weekday::Mon, date(2024, 1, 1), date(2023, 12, 31), 10, 5);
    assert_eq!(
        create(&u, 1, r).err(),
        Some(TimeslotCreateError::TimerangeStartShouldBeBeforeEnd)
    );
    let r = request(Weekday::Mon, date(2024, 1, 1), date(2024, 1, 1), 10, 5);
    assert_eq!(create(&u, 1, r).err(), Some(TimeslotCreateError::StartTimeShouldBeBeforeEndTime));
}

#[test]
fn create_builds_the_stored_timeslot() {
    let u = UserId::new("issuer:alice".to_string());
    let r = request(Weekday::Mon, date(2024, 1, 1), date(2024, 1, 1), 5, 5);
    let ts = create(&u, 42, r).unwrap();
    assert_eq!(ts.user_id, "issuer:alice");
    assert_eq!(ts.id, 42);
    assert_eq!(ts.subject, "Maths");
    assert_eq!(ts.students, vec!["Anna".to_string(), "Ben".to_string()]);
    assert_eq!(ts.time, DbTime { beginning: TimeOfDay { secs: 5 }, finish: TimeOfDay { secs: 5 } });
    assert_eq!(
        ts.timerange,
        DbTimerange { beginning: date(2024, 1, 1), finish: date(2024, 1, 1) }
    );
    assert_eq!(ts.timezone, "Europe/Berlin");
}

#[test]
fn create_error_texts() {
    let e = TimeslotCreateError::TimerangeStartShouldBeWeekday;
    assert_eq!(e.status_code(), 422);
    assert_eq!(e.message(), "weekday of timerange.start should be equal to weekday");
    assert_eq!(
        TimeslotCreateError::TimerangeStartShouldBeBeforeEnd.message(),
        "timerange.start should be before timerange.end"
    );
    assert_eq!(
        TimeslotCreateError::StartTimeShouldBeBeforeEndTime.message(),
        "time.start should be before time.end"
    );
}

#[test]
fn test_verify_session_expiry() {
    let now: i64 = 1_700_000_000;
    let week: i64 = 7 * 86_400;
    let valid_session = Session {
        id: 1,
        authenticated: SessionStatus::Authenticated,
        nonce: "".into(),
        user_id: Some("hello".into()),
        expires: now + week,
    };
    let invalid_session = Session {
        id: 2,
        authenticated: SessionStatus::Authenticated,
        nonce: "".into(),
        user_id: Some("hello".into()),
        expires: now - week,
    };
    assert_eq!(verify_session_expiry(&valid_session, now), Ok(()));
    assert_eq!(verify_session_expiry(&invalid_session, now), Err(()));
}

fn session(status: SessionStatus, user: Option<&str>, expires: i64) -> Session {
    Session {
        id: 1,
        authenticated: status,
        nonce: "n".to_string(),
        user_id: user.map(|u| u.to_string()),
        expires,
    }
}

#[test]
fn session_expiring_now_is_still_valid() {
    let s = session(SessionStatus::Authenticated, Some("u"), 100);
    assert_eq!(verify_session_expiry(&s, 100), Ok(()));
    assert_eq!(verify_session_expiry(&s, 101), Err(()));
    assert_eq!(verify_session(&s, 100), Ok(()));
    assert_eq!(verify_session(&s, 101), Err(()));
}

#[test]
fn session_must_be_signed_in() {
    let s = session(SessionStatus::Initiated, Some("u"), 100);
    assert_eq!(verify_authenticated(&s), Err(()));
    assert_eq!(verify_session(&s, 0), Err(()));
    let s = session(SessionStatus::Authenticated, Some("u"), 100);
    assert_eq!(verify_authenticated(&s), Ok(()));
}

#[test]
fn verify_decides_on_the_user() {
    assert_eq!(verify(None, 0).err(), Some(AuthenticatorError::InvalidSession));
    let s = session(SessionStatus::Initiated, Some("u"), 100);
    assert_eq!(verify(Some(s), 0).err(), Some(AuthenticatorError::NotAuthorized));
    let s = session(SessionStatus::Authenticated, Some("u"), 100);
    assert_eq!(verify(Some(s), 200).err(), Some(AuthenticatorError::NotAuthorized));
    let s = session(SessionStatus::Authenticated, None, 100);
    assert_eq!(verify(Some(s), 0).err(), Some(AuthenticatorError::InvalidSession));
    let s = session(SessionStatus::Authenticated, Some("issuer:alice"), 100);
    assert_eq!(verify(Some(s), 0).unwrap().as_str(), "issuer:alice");
}

#[test]
fn auth_error_texts() {
    assert_eq!(AuthError::SessionIdInvalid.status_code(), 400);
    assert_eq!(AuthError::SessionMissing.status_code(), 401);
    assert_eq!(AuthError::SessionInvalid.status_code(), 401);
    assert_eq!(AuthError::SessionIncompleteOrExpired.status_code(), 401);
    assert_eq!(AuthError::SessionIncompleteOrExpired.message(), "incomplete or expired session");
    assert_eq!(AuthError::SessionInvalid.message(), "invalid session");
    assert_eq!(AuthError::SessionMissing.message(), "session id cookie missing");
    assert_eq!(AuthError::SessionIdInvalid.message(), "invalid sessionid");
    assert_eq!(AuthenticatorError::InvalidSession.message(), "invalid session");
    assert_eq!(AuthenticatorError::NotAuthorized.message(), "Not authorized");
    assert_eq!(
        AuthError::from_authenticator(AuthenticatorError::NotAuthorized),
        AuthError::SessionIncompleteOrExpired
    );
    assert_eq!(
        AuthError::from_authenticator(AuthenticatorError::InvalidSession),
        AuthError::SessionInvalid
    );
}

#[test]
fn session_id_is_read_from_the_cookie() {
    assert_eq!(extract_session_id(None), Err(AuthError::SessionMissing));
    assert_eq!(extract_session_id(Some("not an id")), Err(AuthError::SessionIdInvalid));
    assert_eq!(extract_session_id(Some("")), Err(AuthError::SessionIdInvalid));
    assert_eq!(
        extract_session_id(Some("01234567-89ab-cdef-0123-456789abcdef")),
        Ok(0x0123_4567_89ab_cdef_0123_4567_89ab_cdef)
    );
}

#[test]
fn user_id_is_issuer_and_subject() {
    assert_eq!(compose_user_id("https://issuer", "alice"), "https://issuer:alice");
    assert_eq!(compose_user_id("", ""), ":");
}

#[test]
fn objects_of_other_users_are_found() {
    let alice = UserId::new("issuer:alice".to_string());
    let mine = monday_timeslot();
    let mut theirs = monday_timeslot();
    theirs.user_id = "issuer:bob".to_string();
    assert_eq!(check_object_belong_to_userid::<WebTimeSlot>(&[], &alice), Ok(()));
    assert_eq!(check_object_belong_to_userid(&[monday_timeslot(), mine], &alice), Ok(()));
    assert_eq!(
        check_object_belong_to_userid(&[monday_timeslot(), theirs, monday_timeslot()], &alice),
        Err(ForeignObject { position: 1 })
    );
}

#[test]
fn identifiers_name_the_record() {
    let ts = monday_timeslot();
    assert_eq!(ts.user_id(), "issuer:alice");
    assert_eq!(ts.identifier(), "timeslot: 01234567-89ab-cdef-0123-456789abcdef");
    let entry = WebEntry {
        user_id: "issuer:bob".to_string(),
        index: 120,
        timeslot_id: 0xff,
        state: EntryState::Success,
        students: vec![],
    };
    assert_eq!(entry.user_id(), "issuer:bob");
    assert_eq!(entry.identifier(), "entry: 00000000-0000-0000-0000-0000000000ff-120");
}

#[test]
fn students_are_grouped_by_status() {
    let states = vec![
        state("Anna", StudentStatus::Present),
        state("Ben", StudentStatus::Missing),
        state("Carla", StudentStatus::Present),
        state("Dora", StudentStatus::Pardoned),
    ];
    let map = seperate_status_map(&states);
    assert_eq!(map.present, vec!["Anna".to_string(), "Carla".to_string()]);
    assert_eq!(map.pardoned, vec!["Dora".to_string()]);
    assert_eq!(map.missing, vec!["Ben".to_string()]);
    assert!(map.get(StudentStatus::Present).is_some());
    let map = seperate_status_map(&[]);
    assert!(map.get(StudentStatus::Present).is_none());
    assert!(map.get(StudentStatus::Pardoned).is_none());
    assert!(map.get(StudentStatus::Missing).is_none());
}

#[test]
fn students_are_joined_with_commas() {
    assert_eq!(format_students(&[]), "");
    assert_eq!(format_students(&["Anna".to_string()]), "Anna");
    assert_eq!(
        format_students(&["Anna".to_string(), "Ben".to_string(), "Carla".to_string()]),
        "Anna, Ben, Carla"
    );
}

#[test]
fn entries_are_described_in_a_sentence() {
    let roster = vec!["Anna".to_string(), "Ben".to_string()];
    assert_eq!(
        format_entry(EntryState::Success, &[], &roster),
        "Unterricht mit Anna, Ben hat planmäßig und erfolgreich stattgefunden."
    );
    assert_eq!(
        format_entry(
            EntryState::Success,
            &[state("Anna", StudentStatus::Present), state("Ben", StudentStatus::Missing)],
            &roster
        ),
        "Unterricht mit Anna hat planmäßig und erfolgreich stattgefunden. (Ben fehlte(n) unentschuldigt)"
    );
    assert_eq!(
        format_entry(
            EntryState::CancelledByStudents,
            &[state("Anna", StudentStatus::Pardoned), state("Ben", StudentStatus::Pardoned)],
            &roster
        ),
        "Unterricht mit Anna, Ben wurde vom Matrosen abgesagt und nicht nachgeholt. (Anna, Ben entschuldigt)"
    );
    assert_eq!(
        format_entry(EntryState::CancelledByTutor, &[], &roster),
        "Unterricht mit Anna, Ben wurde von mir abgesagt und nicht nachgeholt."
    );
    assert_eq!(
        format_entry(EntryState::StudentsMissing, &[state("Ben", StudentStatus::Missing)], &roster),
        "Unterricht mit Anna, Ben konnte nicht stattfinden. Matrose(n) fehlte(n) unentschuldigt! (Ben fehlte(n) unentschuldigt)"
    );
    assert_eq!(format_entry(EntryState::Holidays, &[], &roster), "Ferien");
    assert_eq!(
        format_entry(
            EntryState::Other,
            &[state("Anna", StudentStatus::Pardoned), state("Ben", StudentStatus::Missing)],
            &roster
        ),
        "Unterricht mit Anna, Ben konnte aus unbekannten Gründen nicht stattfinden. (Anna entschuldigt) (Ben fehlte(n) unentschuldigt)"
    );
}
