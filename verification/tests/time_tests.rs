use canvas_todo::time::{
    format_datetime, format_duration, format_duration_full, format_time, local_parts, LocalParts,
};

fn parts(ts: i64, day_number: i64, hour: u8, minute: u8) -> LocalParts {
    LocalParts {
        ts,
        day_number,
        month: 3,
        day: 4,
        hour,
        minute,
        weekday: 0,
    }
}

#[test]
fn clock_times_use_two_digit_twelve_hour_figures() {
    assert_eq!(format_time(&parts(0, 0, 0, 0)), "12:00 am");
    assert_eq!(format_time(&parts(0, 0, 12, 0)), "12:00 pm");
    assert_eq!(format_time(&parts(0, 0, 15, 5)), "03:05 pm");
    assert_eq!(format_time(&parts(0, 0, 9, 59)), "09:59 am");
    assert_eq!(format_time(&parts(0, 0, 23, 1)), "11:01 pm");
}

#[test]
fn due_moments_are_announced_relative_to_today() {
    let now = parts(1_000_000_000, 100, 10, 0);
    let same_day = parts(1_000_020_000, 100, 15, 30);
    assert_eq!(format_datetime(&now, &same_day), "today at 03:30 pm");
    let tomorrow = parts(1_000_100_000, 101, 8, 0);
    assert_eq!(format_datetime(&now, &tomorrow), "tomorrow at 08:00 am");
    let mut this_week = parts(1_000_300_000, 103, 8, 0);
    this_week.weekday = 3;
    assert_eq!(format_datetime(&now, &this_week), "this Thursday at 08:00 am");
    let mut next_week = parts(1_000_800_000, 109, 8, 0);
    next_week.weekday = 2;
    assert_eq!(format_datetime(&now, &next_week), "next Wednesday at 08:00 am");
    let mut far = parts(1_003_000_000, 134, 8, 15);
    far.month = 7;
    far.day = 9;
    assert_eq!(format_datetime(&now, &far), "on Jul 09 at 08:15 am");
    let yesterday = parts(999_900_000, 99, 8, 0);
    assert_eq!(format_datetime(&now, &yesterday), "on Mar 04 at 08:00 am");
}

#[test]
fn spans_read_in_hours_below_two_days_and_in_days_beyond() {
    let a = parts(1_000_000_000, 100, 0, 0);
    let one_hour = parts(1_000_003_600, 100, 1, 0);
    assert_eq!(format_duration(&a, &one_hour), "1 hour");
    let five_hours = parts(1_000_018_000, 100, 5, 0);
    assert_eq!(format_duration(&a, &five_hours), "5 hours");
    let forty_hours = parts(1_000_144_000, 102, 16, 0);
    assert_eq!(format_duration(&a, &forty_hours), "40 hours");
    let three_days = parts(1_000_259_200, 103, 0, 0);
    assert_eq!(format_duration(&a, &three_days), "3 days");
}

#[test]
fn calendar_readings_carry_the_timestamp_and_a_valid_date() {
    // 2024-03-04 13:30:00 UTC; the civil fields depend on the machine's
    // time zone, so only their validity is checked
    let p = local_parts(1_709_559_000).unwrap();
    assert_eq!(p.ts, 1_709_559_000);
    assert!((1..=12).contains(&p.month));
    assert!((1..=31).contains(&p.day));
    assert!(p.hour <= 23);
    assert!(p.minute <= 59);
    assert!(p.weekday <= 6);
    assert!(p.day_number > 700_000);
    assert!(local_parts(i64::MAX).is_none());
}

#[test]
fn spans_are_announced_on_the_side_of_now_they_fall() {
    let now = parts(1_000_000_000, 100, 0, 0);
    let ahead = parts(1_000_018_000, 100, 5, 0);
    assert_eq!(format_duration_full(&now, &ahead), "in 5 hours");
    assert_eq!(format_duration_full(&ahead, &now), "5 hours ago");
}
