use diana::activity::day_of;
use diana::calendar::{date_from_day, format_date, CalendarDate};

fn written(day: i64) -> String {
    format_date(date_from_day(day))
}

#[test]
fn day_zero_is_the_epoch() {
    assert_eq!(date_from_day(0), CalendarDate { year: 1970, month: 1, day: 1 });
    assert_eq!(written(0), "1970-01-01");
    assert_eq!(written(-1), "1969-12-31");
    assert_eq!(written(1), "1970-01-02");
}

#[test]
fn leap_days_are_where_the_calendar_has_them() {
    assert_eq!(written(19782), "2024-02-29");
    assert_eq!(written(19783), "2024-03-01");
    assert_eq!(written(11016), "2000-02-29");
    assert_eq!(written(47540), "2100-02-28");
    assert_eq!(written(47541), "2100-03-01");
    assert_eq!(written(-25508), "1900-03-01");
    assert_eq!(written(-25509), "1900-02-28");
}

#[test]
fn years_end_and_begin() {
    assert_eq!(written(19722), "2023-12-31");
    assert_eq!(written(19723), "2024-01-01");
    assert_eq!(written(-135140), "1600-01-01");
    assert_eq!(written(-719162), "0001-01-01");
    assert_eq!(written(2932896), "9999-12-31");
    assert_eq!(written(2932897), "10000-01-01");
}

#[test]
fn years_before_the_year_zero_are_written_with_a_sign() {
    // The year 0 is a leap year of 366 days; the day before its first is in the year -1.
    assert_eq!(written(-719528), "0000-01-01");
    assert_eq!(written(-719529), "-0001-12-31");
}

#[test]
fn every_day_follows_the_one_before() {
    let mut previous = date_from_day(-800_000);
    for day in -799_999..-799_000i64 {
        let d = date_from_day(day);
        let same_month = d.year == previous.year && d.month == previous.month;
        if same_month {
            assert_eq!(d.day, previous.day + 1);
        } else {
            assert_eq!(d.day, 1);
        }
        previous = d;
    }
    let far = date_from_day(i64::MAX);
    assert!(far.month >= 1 && far.month <= 12 && far.day >= 1 && far.day <= 31);
    let early = date_from_day(i64::MIN);
    assert!(early.month >= 1 && early.month <= 12 && early.day >= 1 && early.day <= 31);
}

#[test]
fn times_fall_on_the_day_they_belong_to() {
    assert_eq!(day_of(0), 0);
    assert_eq!(day_of(86_399_999), 0);
    assert_eq!(day_of(86_400_000), 1);
    assert_eq!(day_of(-1), -1);
    assert_eq!(day_of(-86_400_000), -1);
    assert_eq!(day_of(-86_400_001), -2);
    assert_eq!(day_of(1_710_504_000_000), 19797);
    assert_eq!(day_of(i64::MIN), -106_751_991_168);
    assert_eq!(day_of(i64::MAX), 106_751_991_167);
}
