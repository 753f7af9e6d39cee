use wyck_chart::axis::{
    bucket, civil, civil_text, full_time, label_for, label_text, month_name, pick_unit, time_marks, Civil, Unit, DAY,
    HOUR, MINUTE, SECOND,
};

/// 2026-01-05 00:00 UTC, a Monday.
const MONDAY: i64 = 1_767_571_200_000;

fn minutes(range: std::ops::Range<i64>) -> Vec<Option<i64>> {
    range.map(|m| Some(MONDAY + m * MINUTE)).collect()
}

#[test]
fn the_crosshair_time_is_readable() {
    let text = full_time(MONDAY + 61_500, true, true);
    assert_eq!(text, "Mon 5 Jan 2026  00:01:01.500");
    assert_eq!(full_time(MONDAY, false, false), "Mon 5 Jan 2026  00:00");
}

#[test]
fn times_before_the_epoch_do_not_panic() {
    assert!(!full_time(-86_400_000, false, false).is_empty());
    assert_eq!(full_time(-86_400_000, false, false), "Wed 31 Dec 1969  00:00");
    assert_eq!(full_time(-1, true, true), "Wed 31 Dec 1969  23:59:59.999");
}

#[test]
fn times_past_the_calendar_read_as_nothing() {
    assert_eq!(full_time(i64::MAX, true, true), "");
    assert!(civil(i64::MIN).is_none());
    assert!(civil(253_402_300_799_999).is_some());
    assert!(civil(253_402_300_800_000).is_none());
}

#[test]
fn a_new_day_is_a_major_label() {
    let unit = Unit::Fixed(HOUR);
    let (text, major) = label_text(unit, MONDAY + DAY, Some(MONDAY + DAY - HOUR));
    assert_eq!((text.as_str(), major), ("6 Jan", true));
    let (text, major) = label_text(unit, MONDAY + 2 * HOUR, Some(MONDAY + HOUR));
    assert_eq!((text.as_str(), major), ("02:00", false));
    let (text, _) = label_text(Unit::Fixed(15_000), MONDAY + 75_000, Some(MONDAY + 60_000));
    assert_eq!(text, "00:01:15");
    let (text, major) = label_text(Unit::Months(1), MONDAY + 40 * DAY, Some(MONDAY));
    assert_eq!((text.as_str(), major), ("Feb", false));
    let (text, major) = label_text(Unit::Years(1), MONDAY, None);
    assert_eq!((text.as_str(), major), ("2026", true));
}

#[test]
fn hourly_labels_appear_on_the_hour() {
    let times = minutes(0..600);
    let unit = pick_unit(60 * MINUTE);
    assert_eq!(unit, Unit::Fixed(HOUR));
    let marks = time_marks(unit, &times, 0);
    assert_eq!(marks.len(), 10);
    assert!(marks[0].major, "the first label names the day");
    for mark in marks.iter().skip(1) {
        assert_eq!(mark.index % 60, 0, "{mark:?}");
        assert!(!mark.major);
    }
    assert_eq!(marks[1].text, "01:00");
}

#[test]
fn no_points_no_labels() {
    assert!(time_marks(Unit::Fixed(HOUR), &[], 0).is_empty());
    assert!(time_marks(Unit::Fixed(HOUR), &[None, None], 0).is_empty());
}

#[test]
fn a_point_before_the_first_decides_whether_it_starts_a_unit() {
    let times = minutes(0..120);
    // Starting at minute 30, the point before it is in the same hour: no label until the next.
    let marks = time_marks(Unit::Fixed(HOUR), &times, 30);
    assert_eq!(marks.len(), 1);
    assert_eq!(marks[0].index, 60);
}

#[test]
fn the_ladder_picks_the_shortest_step_that_is_long_enough() {
    assert_eq!(pick_unit(0), Unit::Fixed(1_000));
    assert_eq!(pick_unit(1_001), Unit::Fixed(2_000));
    assert_eq!(pick_unit(8 * DAY), Unit::Months(1));
    assert_eq!(pick_unit(400 * DAY), Unit::Years(2));
    assert_eq!(pick_unit(i64::MAX), Unit::Years(10));
    assert_eq!(Unit::Months(2).nominal_ms(), 60 * DAY);
}

#[test]
fn buckets_count_whole_steps_months_and_years() {
    assert_eq!(bucket(Unit::Fixed(HOUR), MONDAY + 90 * MINUTE), MONDAY / HOUR + 1);
    assert_eq!(bucket(Unit::Fixed(HOUR), -1), -1);
    assert_eq!(bucket(Unit::Months(1), MONDAY), 2026 * 12);
    assert_eq!(bucket(Unit::Months(3), MONDAY), 2026 * 12 / 3);
    assert_eq!(bucket(Unit::Years(5), MONDAY), 405);
    assert_eq!(bucket(Unit::Years(1), i64::MAX), 0, "past the calendar");
}

#[test]
fn months_have_short_names_and_are_clamped() {
    assert_eq!(month_name(1), "Jan");
    assert_eq!(month_name(12), "Dec");
    assert_eq!(month_name(0), "Jan");
    assert_eq!(month_name(99), "Dec");
}

/// The Ides of March of 44 BC as the proleptic calendar with a year zero counts it: a Friday.
fn ides() -> Civil {
    Civil { year: -43, month: 3, day: 15, hour: 9, minute: 5, second: 7, millisecond: 89, weekday: 4 }
}

#[test]
fn a_date_and_time_is_written_out() {
    let c = ides();
    assert_eq!(civil_text(c, false, false), "Fri 15 Mar -43  09:05");
    assert_eq!(civil_text(c, true, false), "Fri 15 Mar -43  09:05:07");
    assert_eq!(civil_text(c, false, true), "Fri 15 Mar -43  09:05:07.089");
    let late = Civil { year: 9999, month: 12, day: 31, hour: 23, minute: 59, second: 59, millisecond: 999, weekday: 4 };
    assert_eq!(civil_text(late, true, true), "Fri 31 Dec 9999  23:59:59.999");
}

#[test]
fn labels_tell_what_changed_since_the_point_before() {
    let c = ides();
    let same_day = Civil { hour: 8, ..c };
    let day_before = Civil { day: 14, ..c };
    let month_before = Civil { month: 2, day: 28, ..c };
    let year_before = Civil { year: -44, month: 12, day: 31, ..c };
    // Steps within a day: the first of a day is its date, the others the time.
    assert_eq!(label_for(Unit::Fixed(HOUR), c, None), ("15 Mar".to_string(), true));
    assert_eq!(label_for(Unit::Fixed(HOUR), c, Some(day_before)), ("15 Mar".to_string(), true));
    assert_eq!(label_for(Unit::Fixed(HOUR), c, Some(same_day)), ("09:05".to_string(), false));
    assert_eq!(label_for(Unit::Fixed(SECOND), c, Some(same_day)), ("09:05:07".to_string(), false));
    // Steps of days: a new year, a new month, else the day.
    assert_eq!(label_for(Unit::Fixed(DAY), c, Some(year_before)), ("-43".to_string(), true));
    assert_eq!(label_for(Unit::Fixed(DAY), c, Some(month_before)), ("Mar".to_string(), true));
    assert_eq!(label_for(Unit::Fixed(DAY), c, Some(day_before)), ("15".to_string(), false));
    // Steps of months and years.
    assert_eq!(label_for(Unit::Months(1), c, Some(year_before)), ("-43".to_string(), true));
    assert_eq!(label_for(Unit::Months(3), c, Some(month_before)), ("Mar".to_string(), false));
    assert_eq!(label_for(Unit::Years(1), c, Some(year_before)), ("-43".to_string(), true));
}
