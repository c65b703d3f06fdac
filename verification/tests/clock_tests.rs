use flux::clock::{checked_line_for, clock_face, clock_now, day_suffix, last_checked, ClockReading};

fn reading(hour: u32, minute: u32, day: u32) -> ClockReading {
    ClockReading { hour, minute, day, weekday: "Monday".into(), month: "January".into() }
}

#[test]
fn clock_face_is_twelve_hour() {
    let f = clock_face(reading(0, 5, 1));
    assert_eq!(f.time, "12:05");
    assert_eq!(f.ampm, "am");
    assert_eq!(f.weekday_line, "Monday,");
    assert_eq!(f.month_line, "January ");
    assert_eq!(f.day, "1");
    assert_eq!(f.suffix, "st");

    let f = clock_face(reading(13, 30, 22));
    assert_eq!(f.time, "1:30");
    assert_eq!(f.ampm, "pm");
    assert_eq!(f.day, "22");
    assert_eq!(f.suffix, "nd");

    let f = clock_face(reading(12, 0, 23));
    assert_eq!(f.time, "12:00");
    assert_eq!(f.ampm, "pm");
    assert_eq!(f.suffix, "rd");

    let f = clock_face(reading(11, 59, 31));
    assert_eq!(f.time, "11:59");
    assert_eq!(f.ampm, "am");
}

#[test]
fn ordinal_suffixes() {
    let expected = [
        (1, "st"), (2, "nd"), (3, "rd"), (4, "th"), (10, "th"), (11, "th"), (12, "th"),
        (13, "th"), (21, "st"), (22, "nd"), (23, "rd"), (24, "th"), (30, "th"), (31, "st"),
        (101, "st"), (111, "th"), (112, "th"), (113, "th"),
    ];
    for (day, suffix) in expected {
        assert_eq!(day_suffix(day), suffix, "day {day}");
    }
}

#[test]
fn clock_now_is_a_time() {
    let f = clock_now();
    assert!(f.ampm == "am" || f.ampm == "pm");
    let (h, m) = f.time.split_once(':').unwrap();
    let h: u32 = h.parse().unwrap();
    assert!((1..=12).contains(&h));
    assert_eq!(m.len(), 2);
    assert!(m.parse::<u32>().unwrap() < 60);
    assert!(f.weekday_line.ends_with(','));
    assert!(f.month_line.ends_with(' '));
}

#[test]
fn last_checked_lines() {
    assert_eq!(last_checked(None), "Last checked: never");
    assert_eq!(last_checked(Some("yesterday")), "Last checked: never");
    assert_eq!(last_checked(Some("2001-02-03T04:05:06Z")), "Last checked: Feb 03");
    assert_eq!(last_checked(Some("2001-02-03T23:30:00-05:00")), "Last checked: Feb 03");
    assert_eq!(last_checked(Some("2999-01-01T00:00:00+00:00")), "Last checked: just now");

    let five_min = (chrono::Local::now() - chrono::TimeDelta::minutes(5)).to_rfc3339();
    assert_eq!(last_checked(Some(&five_min)), "Last checked: 5 min ago");
    let three_hours = (chrono::Local::now() - chrono::TimeDelta::hours(3)).to_rfc3339();
    assert_eq!(last_checked(Some(&three_hours)), "Last checked: 3h ago");
    let now = chrono::Local::now().to_rfc3339();
    assert_eq!(last_checked(Some(&now)), "Last checked: just now");
}

#[test]
fn checked_lines_by_seconds() {
    let d = || "Mar 04".to_string();
    assert_eq!(checked_line_for(-5, d()), "Last checked: just now");
    assert_eq!(checked_line_for(59, d()), "Last checked: just now");
    assert_eq!(checked_line_for(60, d()), "Last checked: 1 min ago");
    assert_eq!(checked_line_for(3599, d()), "Last checked: 59 min ago");
    assert_eq!(checked_line_for(3600, d()), "Last checked: 1h ago");
    assert_eq!(checked_line_for(86399, d()), "Last checked: 23h ago");
    assert_eq!(checked_line_for(86400, d()), "Last checked: Mar 04");
    assert_eq!(checked_line_for(i64::MIN, d()), "Last checked: just now");
}
