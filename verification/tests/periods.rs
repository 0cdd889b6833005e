use timelog::{
    entries_in_period, entry_matches, fetch_entries, LogFile, Period, TimeEntry, Timestamp,
    DATE_IN_FORMAT,
};

fn noon(year: i32, month: u32, day: u32) -> Timestamp {
    Timestamp { year, month, day, hour: 12, minute: 0, second: 0, nanosecond: 0, offset: Some(0) }
}

fn started(id: i32, start: Timestamp) -> TimeEntry {
    TimeEntry { id, project: "p".to_string(), tag: None, start, end: Some(start) }
}

fn ids(entries: &[TimeEntry]) -> Vec<i32> {
    entries.iter().map(|e| e.id).collect()
}

fn sample() -> LogFile {
    LogFile {
        projects: Vec::new(),
        entries: vec![
            started(0, noon(2014, 12, 28)),
            started(1, noon(2014, 12, 29)),
            started(2, noon(2014, 12, 31)),
            started(3, noon(2015, 1, 1)),
            started(4, noon(2015, 1, 4)),
            started(5, noon(2015, 1, 5)),
            started(6, noon(2015, 12, 31)),
            started(7, noon(2016, 1, 1)),
            started(8, noon(2016, 1, 31)),
        ],
    }
}

#[test]
fn timestamp_format_is_year_month_day_hour_minute() {
    assert_eq!(DATE_IN_FORMAT, "%Y-%m-%d %H:%M");
}

#[test]
fn parse_reads_the_fields() {
    assert_eq!(
        Timestamp::parse("2024-03-15 09:30"),
        Some(Timestamp {
            year: 2024,
            month: 3,
            day: 15,
            hour: 9,
            minute: 30,
            second: 0,
            nanosecond: 0,
            offset: None,
        })
    );
    assert_eq!(
        Timestamp::parse("1999-12-31 23:59"),
        Some(Timestamp {
            year: 1999,
            month: 12,
            day: 31,
            hour: 23,
            minute: 59,
            second: 0,
            nanosecond: 0,
            offset: None,
        })
    );
    assert_eq!(
        Timestamp::parse("2024-02-29 00:00"),
        Some(Timestamp {
            year: 2024,
            month: 2,
            day: 29,
            hour: 0,
            minute: 0,
            second: 0,
            nanosecond: 0,
            offset: None,
        })
    );
}

#[test]
fn parse_rejects_what_is_no_timestamp() {
    assert_eq!(Timestamp::parse(""), None);
    assert_eq!(Timestamp::parse("now"), None);
    assert_eq!(Timestamp::parse("2024-03-15"), None);
    assert_eq!(Timestamp::parse("2023-02-29 10:00"), None);
    assert_eq!(Timestamp::parse("2024-03-15 09:30 tomorrow"), None);
    assert_eq!(Timestamp::parse("2024-00-15 09:30"), None);
    assert_eq!(Timestamp::parse("2024-03-32 09:30"), None);
}

#[test]
fn iso_week_of_known_dates() {
    assert_eq!(noon(2015, 9, 5).iso_week(), Some((2015, 36)));
    assert_eq!(noon(2014, 12, 29).iso_week(), Some((2015, 1)));
    assert_eq!(noon(2014, 12, 28).iso_week(), Some((2014, 52)));
    assert_eq!(noon(2016, 1, 1).iso_week(), Some((2015, 53)));
    assert_eq!(noon(2024, 3, 15).iso_week(), Some((2024, 11)));
    assert_eq!(noon(0, 1, 3).iso_week(), Some((0, 1)));
    assert_eq!(noon(0, 1, 2).iso_week(), Some((-1, 52)));
}

#[test]
fn iso_week_of_a_date_that_does_not_exist() {
    assert_eq!(noon(2023, 2, 29).iso_week(), None);
    assert_eq!(noon(2024, 0, 1).iso_week(), None);
    assert_eq!(noon(2024, 13, 1).iso_week(), None);
    assert_eq!(noon(2024, 4, 31).iso_week(), None);
    assert_eq!(noon(400000, 1, 1).iso_week(), None);
}

#[test]
fn iso_week_ignores_the_time_of_day() {
    let mut late = noon(2024, 3, 17);
    late.hour = 23;
    late.minute = 59;
    late.second = 59;
    late.offset = None;
    assert_eq!(late.iso_week(), Some((2024, 11)));
    assert_eq!(noon(2024, 3, 18).iso_week(), Some((2024, 12)));
}

#[test]
fn day_is_the_same_calendar_date() {
    let now = noon(2024, 3, 15);
    let mut morning = now;
    morning.hour = 0;
    morning.minute = 1;
    morning.offset = Some(7200);
    assert!(Period::Day.contains(&morning, &now));
    assert!(!Period::Day.contains(&noon(2024, 3, 14), &now));
    assert!(!Period::Day.contains(&noon(2024, 4, 15), &now));
    assert!(!Period::Day.contains(&noon(2023, 3, 15), &now));
}

#[test]
fn week_is_the_same_iso_week() {
    assert!(Period::Week.contains(&noon(2014, 12, 29), &noon(2015, 1, 1)));
    assert!(Period::Week.contains(&noon(2015, 1, 4), &noon(2014, 12, 29)));
    assert!(!Period::Week.contains(&noon(2015, 1, 4), &noon(2015, 1, 5)));
    assert!(!Period::Week.contains(&noon(2014, 12, 28), &noon(2014, 12, 29)));
    assert!(Period::Week.contains(&noon(2024, 3, 11), &noon(2024, 3, 17)));
}

#[test]
fn week_tells_years_apart() {
    assert_eq!(noon(2023, 3, 8).iso_week(), Some((2023, 10)));
    assert_eq!(noon(2024, 3, 8).iso_week(), Some((2024, 10)));
    assert!(!Period::Week.contains(&noon(2023, 3, 8), &noon(2024, 3, 8)));
}

#[test]
fn week_holds_no_date_that_does_not_exist() {
    assert!(!Period::Week.contains(&noon(2023, 2, 30), &noon(2023, 2, 30)));
    assert!(!Period::Week.contains(&noon(2023, 2, 30), &noon(2023, 3, 1)));
    assert!(!Period::Week.contains(&noon(2023, 3, 1), &noon(2023, 2, 30)));
}

#[test]
fn month_ignores_the_year() {
    let now = noon(2024, 3, 15);
    assert!(Period::Month.contains(&noon(2024, 3, 1), &now));
    assert!(Period::Month.contains(&noon(1999, 3, 31), &now));
    assert!(!Period::Month.contains(&noon(2024, 2, 29), &now));
    assert!(!Period::Month.contains(&noon(2024, 4, 1), &now));
}

#[test]
fn year_is_the_same_calendar_year() {
    let now = noon(2024, 3, 15);
    assert!(Period::Year.contains(&noon(2024, 1, 1), &now));
    assert!(Period::Year.contains(&noon(2024, 12, 31), &now));
    assert!(!Period::Year.contains(&noon(2023, 12, 31), &now));
    assert!(!Period::Year.contains(&noon(2025, 1, 1), &now));
}

#[test]
fn all_holds_everything() {
    assert!(Period::All.contains(&noon(-5, 1, 1), &noon(2024, 3, 15)));
    assert!(Period::All.contains(&noon(2023, 2, 30), &noon(2024, 3, 15)));
}

#[test]
fn contains_given_weeks_decides_from_the_weeks_it_is_given() {
    let a = noon(2024, 3, 15);
    let b = noon(2020, 7, 1);
    assert!(Period::Week.contains_given_weeks(&a, &b, Some((2024, 11)), Some((2024, 11))));
    assert!(!Period::Week.contains_given_weeks(&a, &a, Some((2024, 11)), Some((2024, 12))));
    assert!(!Period::Week.contains_given_weeks(&a, &a, Some((2023, 11)), Some((2024, 11))));
    assert!(!Period::Week.contains_given_weeks(&a, &a, None, None));
    assert!(!Period::Week.contains_given_weeks(&a, &a, Some((2024, 11)), None));
    assert!(!Period::Week.contains_given_weeks(&a, &a, None, Some((2024, 11))));
    assert!(Period::Day.contains_given_weeks(&a, &a, None, Some((1, 1))));
    assert!(!Period::Day.contains_given_weeks(&a, &b, Some((1, 1)), Some((1, 1))));
    assert!(!Period::Month.contains_given_weeks(&a, &b, Some((1, 1)), Some((1, 1))));
    assert!(!Period::Year.contains_given_weeks(&a, &b, Some((1, 1)), Some((1, 1))));
    assert!(Period::All.contains_given_weeks(&a, &b, None, None));
}

#[test]
fn entries_in_period_day() {
    let log_file = sample();
    assert_eq!(ids(&entries_in_period(&log_file, Period::Day, noon(2015, 1, 4))), vec![4]);
    assert_eq!(ids(&entries_in_period(&log_file, Period::Day, noon(2015, 1, 3))), Vec::<i32>::new());
}

#[test]
fn entries_in_period_week() {
    let log_file = sample();
    assert_eq!(ids(&entries_in_period(&log_file, Period::Week, noon(2014, 12, 30))), vec![1, 2, 3, 4]);
    assert_eq!(ids(&entries_in_period(&log_file, Period::Week, noon(2015, 1, 6))), vec![5]);
    assert_eq!(ids(&entries_in_period(&log_file, Period::Week, noon(2016, 1, 2))), vec![6, 7]);
}

#[test]
fn entries_in_period_month() {
    let log_file = sample();
    assert_eq!(ids(&entries_in_period(&log_file, Period::Month, noon(2030, 12, 1))), vec![0, 1, 2, 6]);
    assert_eq!(ids(&entries_in_period(&log_file, Period::Month, noon(2015, 1, 20))), vec![3, 4, 5, 7, 8]);
}

#[test]
fn entries_in_period_year() {
    let log_file = sample();
    assert_eq!(ids(&entries_in_period(&log_file, Period::Year, noon(2015, 6, 1))), vec![3, 4, 5, 6]);
    assert_eq!(ids(&entries_in_period(&log_file, Period::Year, noon(2017, 6, 1))), Vec::<i32>::new());
}

#[test]
fn entries_in_period_all() {
    let log_file = sample();
    assert_eq!(entries_in_period(&log_file, Period::All, noon(1970, 1, 1)), sample().entries);
}

#[test]
fn fetch_applies_period_project_and_tag_together() {
    let mut log_file = sample();
    log_file.entries[3].project = "q".to_string();
    log_file.entries[4].tag = Some("t".to_string());
    log_file.entries[5].tag = Some("t".to_string());
    let now = noon(2015, 1, 2);
    assert_eq!(ids(&fetch_entries(&log_file, Period::Week, "p".to_string(), None, now)), vec![1, 2, 4]);
    assert_eq!(
        ids(&fetch_entries(&log_file, Period::Week, "p".to_string(), Some("t".to_string()), now)),
        vec![4]
    );
    assert_eq!(
        ids(&fetch_entries(&log_file, Period::Year, "p".to_string(), Some("t".to_string()), now)),
        vec![4, 5]
    );
    assert_eq!(ids(&fetch_entries(&log_file, Period::Week, "q".to_string(), None, now)), vec![3]);
    assert_eq!(
        ids(&fetch_entries(&log_file, Period::All, "r".to_string(), None, now)),
        Vec::<i32>::new()
    );
}

#[test]
fn entry_matches_one_entry() {
    let now = noon(2024, 3, 15);
    let mut e = started(0, noon(2024, 3, 14));
    e.tag = Some("t".to_string());
    let p = "p".to_string();
    assert!(entry_matches(&e, Period::Week, &p, &None, &now));
    assert!(entry_matches(&e, Period::Week, &p, &Some("t".to_string()), &now));
    assert!(!entry_matches(&e, Period::Week, &p, &Some("u".to_string()), &now));
    assert!(!entry_matches(&e, Period::Day, &p, &None, &now));
    assert!(!entry_matches(&e, Period::Week, &"q".to_string(), &None, &now));
    e.tag = None;
    assert!(!entry_matches(&e, Period::Week, &p, &Some("t".to_string()), &now));
    assert!(!entry_matches(&e, Period::Week, &p, &Some(String::new()), &now));
}
