use chrono::{Datelike, NaiveDate, TimeZone};
use lelo::calendar::{Date, TimeOfDay, Weekday, MAX_DAY, MIN_DAY, UNIX_EPOCH_DAY};
use lelo::entry::{
    get_entries, get_time_from_index_and_timeslot, missing_entries, next_entry_date_timeslot,
    required_entries, required_indexes, resolve_occurrence, utc_day_of, Occurrence, UnfilledEntry,
};
use lelo::model::WebTimeSlot;
use lelo::zone::ZonedTimestamp;

fn date(year: i32, month: u32, day: u32) -> Date {
    Date { day: NaiveDate::from_ymd_opt(year, month, day).unwrap().num_days_from_ce() }
}

fn utc(year: i32, month: u32, day: u32, hour: u32, min: u32, sec: u32) -> i64 {
    chrono::Utc.with_ymd_and_hms(year, month, day, hour, min, sec).unwrap().timestamp()
}

fn timeslot(start: Date, end: Date, start_secs: u32, timezone: &str) -> WebTimeSlot {
    WebTimeSlot {
        user_id: "user".to_string(),
        id: 7,
        subject: "Maths".to_string(),
        students: vec!["Anna".to_string(), "Ben".to_string()],
        time: TimeOfDay { secs: start_secs }..TimeOfDay { secs: start_secs + 3600 },
        timerange: start..end,
        weekday: start.weekday(),
        timezone: timezone.to_string(),
    }
}

#[test]
fn day_numbers_match_the_calendar() {
    assert_eq!(NaiveDate::MIN.num_days_from_ce(), MIN_DAY);
    assert_eq!(NaiveDate::MAX.num_days_from_ce(), MAX_DAY);
    assert_eq!(date(1970, 1, 1).day, UNIX_EPOCH_DAY);
    assert_eq!(date(2024, 1, 1).day, 738_886);
    assert!(Date::from_num_days_from_ce(MAX_DAY).is_some());
    assert!(Date::from_num_days_from_ce(MAX_DAY + 1).is_none());
    assert!(Date::from_num_days_from_ce(MIN_DAY - 1).is_none());
}

#[test]
fn weekday_matches_the_calendar() {
    assert_eq!(date(2024, 1, 1).weekday(), Weekday::Mon);
    assert_eq!(date(2024, 1, 7).weekday(), Weekday::Sun);
    assert_eq!(date(1, 1, 1).weekday(), Weekday::Mon);
    assert_eq!(date(0, 12, 31).weekday(), Weekday::Sun);
    let mut d = NaiveDate::from_ymd_opt(-5, 1, 1).unwrap();
    for _ in 0..5000 {
        let ours = Date { day: d.num_days_from_ce() }.weekday().num_days_from_monday();
        assert_eq!(ours, d.weekday().num_days_from_monday());
        d = d.succ_opt().unwrap();
    }
}

#[test]
fn checked_add_days_stops_at_the_last_date() {
    let d = date(2024, 1, 1);
    assert_eq!(d.checked_add_days(7), Some(date(2024, 1, 8)));
    assert_eq!(d.checked_add_days(0), Some(d));
    assert_eq!(Date { day: MAX_DAY }.checked_add_days(1), None);
    assert_eq!(d.checked_add_days(u64::MAX), None);
    assert_eq!(Date { day: MAX_DAY - 7 }.checked_add_days(7), Some(Date { day: MAX_DAY }));
}

#[test]
fn first_occurrence_is_the_start_in_local_time() {
    let ts = timeslot(date(2024, 1, 1), date(2024, 3, 1), 0, "Europe/Berlin");
    let t = get_time_from_index_and_timeslot(&ts, 0).unwrap();
    assert_eq!(t.utc_secs, utc(2023, 12, 31, 23, 0, 0));
    assert_eq!(t.offset_secs, 3600);
    assert_eq!(t.date_naive(), Some(date(2024, 1, 1)));
}

#[test]
fn occurrence_date_advances_by_seven_days() {
    let ts = timeslot(date(2024, 1, 1), date(2024, 12, 30), 36_000, "Europe/Berlin");
    for i in 0..53u32 {
        let t = get_time_from_index_and_timeslot(&ts, i).unwrap();
        let day = t.date_naive().unwrap();
        assert_eq!(day.day, ts.timerange.start.day + 7 * i as i32);
        assert!(ts.timerange.start.day <= day.day && day.day <= ts.timerange.end.day);
    }
    // Summer time: ten o'clock local is eight o'clock UTC.
    let summer = get_time_from_index_and_timeslot(&ts, 26).unwrap();
    assert_eq!(summer.utc_secs, utc(2024, 7, 1, 8, 0, 0));
    assert_eq!(summer.offset_secs, 7200);
}

#[test]
fn no_occurrence_after_the_last_date() {
    let ts = timeslot(date(2024, 1, 1), date(2024, 1, 29), 0, "UTC");
    assert!(get_time_from_index_and_timeslot(&ts, 4).is_some());
    assert!(get_time_from_index_and_timeslot(&ts, 5).is_none());
    assert!(get_time_from_index_and_timeslot(&ts, 1000).is_none());
    assert!(get_time_from_index_and_timeslot(&ts, u32::MAX).is_none());
}

#[test]
fn last_date_is_inclusive() {
    let ts = timeslot(date(2024, 1, 1), date(2024, 1, 8), 0, "UTC");
    assert!(get_time_from_index_and_timeslot(&ts, 1).is_some());
    let ts = timeslot(date(2024, 1, 1), date(2024, 1, 7), 0, "UTC");
    assert!(get_time_from_index_and_timeslot(&ts, 1).is_none());
}

#[test]
fn local_time_in_a_gap_has_no_occurrence() {
    // 31 March 2024, 02:30 does not exist in Berlin.
    let ts = timeslot(date(2024, 3, 24), date(2024, 4, 28), 2 * 3600 + 1800, "Europe/Berlin");
    assert!(get_time_from_index_and_timeslot(&ts, 0).is_some());
    assert!(get_time_from_index_and_timeslot(&ts, 1).is_none());
    assert!(get_time_from_index_and_timeslot(&ts, 2).is_some());
}

#[test]
fn ambiguous_local_time_has_no_occurrence() {
    // 27 October 2024, 02:30 happens twice in Berlin.
    let ts = timeslot(date(2024, 10, 20), date(2024, 11, 24), 2 * 3600 + 1800, "Europe/Berlin");
    assert!(get_time_from_index_and_timeslot(&ts, 0).is_some());
    assert!(get_time_from_index_and_timeslot(&ts, 1).is_none());
    assert!(get_time_from_index_and_timeslot(&ts, 2).is_some());
}

#[test]
fn unknown_timezone_has_no_occurrence() {
    let ts = timeslot(date(2024, 1, 1), date(2024, 3, 1), 0, "Mars/Olympus");
    assert!(get_time_from_index_and_timeslot(&ts, 0).is_none());
    assert!(next_entry_date_timeslot(&ts, utc(2024, 1, 1, 0, 0, 0)).is_none());
    assert!(missing_entries(&ts, &vec![], utc(2024, 2, 1, 0, 0, 0)).is_empty());
}

#[test]
fn same_inputs_give_the_same_occurrence() {
    let ts = timeslot(date(2024, 1, 1), date(2024, 3, 1), 3600, "America/New_York");
    for i in 0..12u32 {
        assert_eq!(
            get_time_from_index_and_timeslot(&ts, i),
            get_time_from_index_and_timeslot(&ts, i)
        );
    }
}

#[test]
fn utc_day_of_rounds_down() {
    assert_eq!(utc_day_of(0), 719_163);
    assert_eq!(utc_day_of(86_399), 719_163);
    assert_eq!(utc_day_of(86_400), 719_164);
    assert_eq!(utc_day_of(-1), 719_162);
    assert_eq!(utc_day_of(-86_400), 719_162);
    assert_eq!(utc_day_of(-86_401), 719_161);
    assert_eq!(utc_day_of(utc(2024, 2, 12, 0, 0, 0)), date(2024, 2, 12).day as i64);
}

#[test]
fn enumeration_stops_before_today() {
    let ts = timeslot(date(2024, 1, 1), date(2024, 3, 1), 0, "UTC");
    let mut it = get_entries(&ts, utc(2024, 1, 15, 12, 0, 0));
    assert_eq!(it.next().map(|t| t.utc_secs), Some(utc(2024, 1, 1, 0, 0, 0)));
    assert_eq!(it.next().map(|t| t.utc_secs), Some(utc(2024, 1, 8, 0, 0, 0)));
    assert_eq!(it.next(), None);
    assert_eq!(it.index, 2);
    // It stays finished.
    assert_eq!(it.next(), None);
    assert_eq!(it.index, 2);
}

#[test]
fn enumeration_stops_at_the_first_gap() {
    let ts = timeslot(date(2024, 3, 24), date(2024, 4, 28), 2 * 3600 + 1800, "Europe/Berlin");
    let required = required_entries(&ts, date(2024, 6, 1).day as i64);
    assert_eq!(required.len(), 1);
    assert_eq!(required[0].index, 0);
}

#[test]
fn enumeration_stops_at_the_last_date() {
    let ts = timeslot(date(2024, 1, 1), date(2024, 1, 29), 0, "UTC");
    let required = required_entries(&ts, date(2030, 1, 1).day as i64);
    assert_eq!(required.len(), 5);
    assert_eq!(required_indexes(&ts, utc(2030, 1, 1, 0, 0, 0)), vec![0, 1, 2, 3, 4]);
}

#[test]
fn missing_entries_end_to_end() {
    let ts = timeslot(date(2024, 1, 1), date(2024, 3, 1), 0, "UTC");
    let now = utc(2024, 2, 12, 0, 0, 0);
    let missing = missing_entries(&ts, &vec![0, 1, 2], now);
    let expected = vec![
        UnfilledEntry {
            index: 3,
            timestamp: ZonedTimestamp { utc_secs: utc(2024, 1, 22, 0, 0, 0), offset_secs: 0 },
        },
        UnfilledEntry {
            index: 4,
            timestamp: ZonedTimestamp { utc_secs: utc(2024, 1, 29, 0, 0, 0), offset_secs: 0 },
        },
        UnfilledEntry {
            index: 5,
            timestamp: ZonedTimestamp { utc_secs: utc(2024, 2, 5, 0, 0, 0), offset_secs: 0 },
        },
    ];
    assert_eq!(missing, expected);
    assert_eq!(missing[0].timestamp.date_naive(), Some(date(2024, 1, 22)));
    assert_eq!(missing[1].timestamp.date_naive(), Some(date(2024, 1, 29)));
    assert_eq!(missing[2].timestamp.date_naive(), Some(date(2024, 2, 5)));
}

#[test]
fn missing_entries_is_the_difference_in_ascending_order() {
    let ts = timeslot(date(2024, 1, 1), date(2024, 3, 1), 0, "UTC");
    let now = utc(2024, 2, 12, 9, 30, 0);
    let indices = |found: Vec<u32>| -> Vec<u32> {
        missing_entries(&ts, &found, now).iter().map(|e| e.index).collect()
    };
    assert_eq!(indices(vec![]), vec![0, 1, 2, 3, 4, 5]);
    assert_eq!(indices(vec![5, 0, 3]), vec![1, 2, 4]);
    assert_eq!(indices(vec![1, 1, 1]), vec![0, 2, 3, 4, 5]);
    // Indices that are not required change nothing.
    assert_eq!(indices(vec![6, 7, 100]), vec![0, 1, 2, 3, 4, 5]);
    // Nothing is missing where every required index is found.
    assert_eq!(indices(vec![5, 4, 3, 2, 1, 0]), Vec::<u32>::new());
    assert_eq!(indices(vec![0, 1, 2, 3, 4, 5, 6, 7]), Vec::<u32>::new());
}

#[test]
fn nothing_is_missing_before_the_start() {
    let ts = timeslot(date(2024, 1, 1), date(2024, 3, 1), 0, "UTC");
    assert!(missing_entries(&ts, &vec![], utc(2023, 12, 1, 0, 0, 0)).is_empty());
    assert!(missing_entries(&ts, &vec![], utc(2024, 1, 1, 23, 59, 59)).is_empty());
    assert_eq!(missing_entries(&ts, &vec![], utc(2024, 1, 2, 0, 0, 0)).len(), 1);
}

#[test]
fn next_occurrence_before_the_start_is_the_first() {
    let ts = timeslot(date(2024, 1, 1), date(2024, 3, 1), 36_000, "Europe/Berlin");
    let first = get_time_from_index_and_timeslot(&ts, 0).unwrap();
    assert_eq!(next_entry_date_timeslot(&ts, utc(2023, 6, 1, 0, 0, 0)), Some((0, first)));
    assert_eq!(next_entry_date_timeslot(&ts, first.utc_secs - 1), Some((0, first)));
    assert_eq!(next_entry_date_timeslot(&ts, i64::MIN), Some((0, first)));
}

#[test]
fn next_occurrence_at_an_instant_is_that_occurrence() {
    let ts = timeslot(date(2024, 1, 1), date(2024, 3, 1), 36_000, "Europe/Berlin");
    let first = get_time_from_index_and_timeslot(&ts, 0).unwrap();
    assert_eq!(next_entry_date_timeslot(&ts, first.utc_secs), Some((0, first)));
    let third = get_time_from_index_and_timeslot(&ts, 3).unwrap();
    assert_eq!(next_entry_date_timeslot(&ts, third.utc_secs), Some((3, third)));
}

#[test]
fn next_occurrence_rounds_up_to_the_next_week() {
    let ts = timeslot(date(2024, 1, 1), date(2024, 3, 1), 0, "UTC");
    let start = utc(2024, 1, 1, 0, 0, 0);
    let (index, t) = next_entry_date_timeslot(&ts, start + 1).unwrap();
    assert_eq!(index, 1);
    assert_eq!(t.utc_secs, start + 604_800);
    let (index, t) = next_entry_date_timeslot(&ts, start + 3 * 604_800 - 1).unwrap();
    assert_eq!(index, 3);
    assert_eq!(t.utc_secs, start + 3 * 604_800);
}

#[test]
fn next_occurrence_ignores_the_last_date() {
    let ts = timeslot(date(2024, 1, 1), date(2024, 1, 29), 0, "UTC");
    let (index, t) = next_entry_date_timeslot(&ts, utc(2025, 1, 1, 0, 0, 0)).unwrap();
    assert_eq!(index, 53);
    assert_eq!(t.utc_secs, utc(2025, 1, 6, 0, 0, 0));
}

#[test]
fn next_occurrence_keeps_the_local_time_when_clocks_go_forward() {
    let ts = timeslot(date(2024, 3, 25), date(2024, 12, 30), 36_000, "Europe/Berlin");
    let first = get_time_from_index_and_timeslot(&ts, 0).unwrap();
    assert_eq!(first.offset_secs, 3600);
    let second = get_time_from_index_and_timeslot(&ts, 1).unwrap();
    assert_eq!(second.utc_secs, first.utc_secs + 604_800 - 3600);
    assert_eq!(second.offset_secs, 7200);
    assert_eq!(next_entry_date_timeslot(&ts, first.utc_secs + 1), Some((1, second)));
    // At the very instant of an occurrence, that occurrence is next.
    assert_eq!(next_entry_date_timeslot(&ts, second.utc_secs), Some((1, second)));
    let third = get_time_from_index_and_timeslot(&ts, 2).unwrap();
    assert_eq!(next_entry_date_timeslot(&ts, second.utc_secs + 1), Some((2, third)));
}

#[test]
fn next_occurrence_is_the_instant_of_its_index() {
    let ts = timeslot(date(2024, 3, 24), date(2024, 4, 7), 36_000, "Europe/Berlin");
    let expected = ZonedTimestamp { utc_secs: utc(2024, 3, 31, 8, 0, 0), offset_secs: 7200 };
    assert_eq!(get_time_from_index_and_timeslot(&ts, 1), Some(expected));
    assert_eq!(next_entry_date_timeslot(&ts, utc(2024, 3, 30, 0, 0, 0)), Some((1, expected)));
    for i in 0..3u32 {
        let t = get_time_from_index_and_timeslot(&ts, i).unwrap();
        assert_eq!(next_entry_date_timeslot(&ts, t.utc_secs), Some((i, t)));
        assert_eq!(next_entry_date_timeslot(&ts, t.utc_secs - 1), Some((i, t)));
    }
}

#[test]
fn next_occurrence_keeps_the_local_time_when_clocks_go_back() {
    let ts = timeslot(date(2024, 10, 21), date(2024, 12, 30), 36_000, "Europe/Berlin");
    let first = get_time_from_index_and_timeslot(&ts, 0).unwrap();
    assert_eq!(first.utc_secs, utc(2024, 10, 21, 8, 0, 0));
    let second = get_time_from_index_and_timeslot(&ts, 1).unwrap();
    assert_eq!(second.utc_secs, utc(2024, 10, 28, 9, 0, 0));
    // A week after the first instant the second occurrence is still to come.
    assert_eq!(next_entry_date_timeslot(&ts, first.utc_secs + 604_800), Some((1, second)));
    assert_eq!(next_entry_date_timeslot(&ts, second.utc_secs), Some((1, second)));
    let third = get_time_from_index_and_timeslot(&ts, 2).unwrap();
    assert_eq!(next_entry_date_timeslot(&ts, second.utc_secs + 1), Some((2, third)));
}

#[test]
fn next_occurrence_passes_over_an_index_without_instant() {
    // 31 March 2024, 02:30 does not exist in Berlin.
    let ts = timeslot(date(2024, 3, 24), date(2024, 4, 28), 2 * 3600 + 1800, "Europe/Berlin");
    let first = get_time_from_index_and_timeslot(&ts, 0).unwrap();
    let third = get_time_from_index_and_timeslot(&ts, 2).unwrap();
    assert_eq!(next_entry_date_timeslot(&ts, first.utc_secs + 1), Some((2, third)));
}

#[test]
fn next_occurrence_far_from_the_start() {
    let ts = timeslot(date(2000, 1, 3), date(2000, 1, 3), 36_000, "America/New_York");
    let now = utc(2024, 6, 15, 12, 0, 0);
    let (index, t) = next_entry_date_timeslot(&ts, now).unwrap();
    assert_eq!(t.date_naive(), Some(date(2024, 6, 17)));
    assert_eq!(index as i32, (date(2024, 6, 17).day - date(2000, 1, 3).day) / 7);
    assert_eq!(t.utc_secs, utc(2024, 6, 17, 14, 0, 0));
    assert_eq!(t.offset_secs, -4 * 3600);
}

#[test]
fn next_occurrence_needs_a_representable_instant() {
    let ts = timeslot(date(2024, 1, 1), date(2024, 3, 1), 0, "UTC");
    assert_eq!(next_entry_date_timeslot(&ts, i64::MAX), None);
    // The last instant whose index still fits 32 bits lies beyond the calendar.
    let start = utc(2024, 1, 1, 0, 0, 0);
    assert_eq!(next_entry_date_timeslot(&ts, start + 4_294_967_295 * 604_800), None);
}

#[test]
fn occurrences_are_told_apart() {
    let ts = timeslot(date(2024, 3, 24), date(2024, 4, 7), 2 * 3600 + 1800, "Europe/Berlin");
    let first = get_time_from_index_and_timeslot(&ts, 0).unwrap();
    assert_eq!(resolve_occurrence(&ts, 0), Occurrence::At(first));
    assert_eq!(resolve_occurrence(&ts, 1), Occurrence::NoLocalTime);
    assert_eq!(resolve_occurrence(&ts, 3), Occurrence::AfterLastDate);
    assert_eq!(resolve_occurrence(&ts, u32::MAX), Occurrence::AfterLastDate);
    let ts = timeslot(date(2024, 10, 20), date(2024, 11, 24), 2 * 3600 + 1800, "Europe/Berlin");
    assert_eq!(resolve_occurrence(&ts, 1), Occurrence::AmbiguousLocalTime);
    let ts = timeslot(date(2024, 1, 1), date(2024, 3, 1), 0, "Mars/Olympus");
    assert_eq!(resolve_occurrence(&ts, 0), Occurrence::NoLocalTime);
}
