use mp4_parser::timestamp::{as_timestamp, CalendarTime};

#[test]
fn epoch_zero_is_nineteen_oh_four() {
    let t = as_timestamp(0);
    assert_eq!(
        t,
        CalendarTime { year: 1904, month: 1, day: 1, hour: 0, minute: 0, second: 0 }
    );
}

#[test]
fn one_day_later() {
    let t = as_timestamp(86400);
    assert_eq!(
        t,
        CalendarTime { year: 1904, month: 1, day: 2, hour: 0, minute: 0, second: 0 }
    );
}

#[test]
fn hours_minutes_seconds_break_down() {
    let t = as_timestamp(3661);
    assert_eq!(
        t,
        CalendarTime { year: 1904, month: 1, day: 1, hour: 1, minute: 1, second: 1 }
    );
}

#[test]
fn leap_day_of_the_epoch_year() {
    // 1904 is a leap year: day 59 (zero-based) is February 29th.
    let t = as_timestamp(59 * 86400);
    assert_eq!(
        t,
        CalendarTime { year: 1904, month: 2, day: 29, hour: 0, minute: 0, second: 0 }
    );
}

#[test]
fn largest_input_does_not_panic() {
    let t = as_timestamp(u32::MAX);
    assert_eq!(t.year, 2040);
}
