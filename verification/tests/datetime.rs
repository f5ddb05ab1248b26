use chrono::{Local, TimeZone};
use sigan::datetime::{
    adjust_stop_time, choose_stop_time, parse_clock_time, parse_user_time, parse_user_time_on,
};
use sigan::time::{now, LocalDateTime};
use sigan::SiganError;

fn local(y: i32, mo: u32, d: u32, h: u32, mi: u32, s: u32) -> LocalDateTime {
    let t = Local.with_ymd_and_hms(y, mo, d, h, mi, s).unwrap();
    LocalDateTime::from_parts(t.timestamp(), t.timestamp_subsec_nanos(), t.offset().local_minus_utc())
        .unwrap()
}

#[test]
fn clock_times_in_both_notations() {
    assert_eq!(parse_clock_time("9:30").unwrap(), 9 * 3600 + 30 * 60);
    assert_eq!(parse_clock_time("09:30:15").unwrap(), 9 * 3600 + 30 * 60 + 15);
    assert_eq!(parse_clock_time("  7:05  ").unwrap(), 7 * 3600 + 5 * 60);
    assert_eq!(parse_clock_time("9:30 pm").unwrap(), 21 * 3600 + 30 * 60);
    assert_eq!(parse_clock_time("9:30PM").unwrap(), 21 * 3600 + 30 * 60);
    assert_eq!(parse_clock_time("12:00 AM").unwrap(), 0);
    assert_eq!(parse_clock_time("12:00pm").unwrap(), 12 * 3600);
    assert_eq!(parse_clock_time("11:59:59 Am").unwrap(), 11 * 3600 + 59 * 60 + 59);
    assert_eq!(parse_clock_time("23:59:59").unwrap(), 86399);
}

#[test]
fn clock_time_refusals() {
    assert_eq!(parse_clock_time("13:00 pm"), Err(SiganError::HoursExceed12));
    assert_eq!(parse_clock_time("24:00"), Err(SiganError::HoursExceed23));
    assert_eq!(parse_clock_time("10:60"), Err(SiganError::MinutesExceed59));
    assert_eq!(parse_clock_time("10:00:60"), Err(SiganError::SecondsExceed59));
    for bad in ["abc", "", "9", "9:3", "123:00", "9:30 xm", "9:30:1", "9:30 p m", "pm", "9:30am pm"] {
        assert_eq!(parse_clock_time(bad), Err(SiganError::InvalidTimeFormat), "{bad}");
    }
}

#[test]
fn typed_times_are_today() {
    let t = parse_user_time("10:15:30").unwrap();
    let today = now().local_date();
    assert!(t.local_date() == today || t.local_date() + 1 == today);
    assert_eq!(t.local_seconds_of_day(), 10 * 3600 + 15 * 60 + 30);
    assert_eq!(t.subsec_nanos(), 0);
    assert_eq!(parse_user_time("25:00"), Err(SiganError::HoursExceed23));
}

#[test]
fn stop_time_moves_back_to_the_start_date() {
    let start = local(2026, 5, 3, 22, 0, 0);
    let stop = local(2026, 5, 4, 23, 0, 0);
    let adjusted = adjust_stop_time(start, stop);
    assert_eq!(adjusted, local(2026, 5, 3, 23, 0, 0));

    // Not after the start on the start's date: the stop time stays.
    let stop = local(2026, 5, 4, 21, 0, 0);
    assert_eq!(adjust_stop_time(start, stop), stop);

    // Same date: the stop time stays.
    let stop = local(2026, 5, 3, 23, 30, 0);
    assert_eq!(adjust_stop_time(start, stop), stop);
}

#[test]
fn chosen_stop_needs_a_later_candidate() {
    let start = local(2026, 5, 3, 22, 0, 0);
    let stop = local(2026, 5, 4, 23, 0, 0);
    let later = local(2026, 5, 3, 23, 0, 0);
    let earlier = local(2026, 5, 3, 21, 0, 0);
    assert_eq!(choose_stop_time(start, stop, Some(later)), later);
    assert_eq!(choose_stop_time(start, stop, Some(earlier)), stop);
    assert_eq!(choose_stop_time(start, stop, None), stop);
    assert_eq!(choose_stop_time(start, later, Some(later)), later);
}

#[test]
fn typed_times_fall_on_the_given_day() {
    let day = local(2026, 5, 3, 0, 0, 0).local_date();
    let cases = [
        ("1:30 PM", (13, 30, 0)),
        ("12:05am", (0, 5, 0)),
        (" 09:15:30 ", (9, 15, 30)),
        ("0:30 pm", (12, 30, 0)),
    ];
    for (text, (h, m, s)) in cases {
        let t = parse_user_time_on(text, day).unwrap();
        assert_eq!(t, local(2026, 5, 3, h, m, s), "{text}");
        assert_eq!(t.local_date(), day);
    }
    assert_eq!(parse_user_time_on("13:00 pm", day), Err(SiganError::HoursExceed12));
    assert_eq!(parse_user_time_on("later", day), Err(SiganError::InvalidTimeFormat));
}
