use chrono::{Local, Offset, TimeZone, Utc};
use sql_audit_gen::clock::{
    days_before, is_usable_now, push_four_digits, timestamp_text, CivilTime, CALENDAR_END,
    CALENDAR_START,
};

fn read(text: &str) -> CivilTime {
    let (date, time) = text.rsplit_once(' ').unwrap();
    let (rest, day) = date.rsplit_once('-').unwrap();
    let (year, month) = rest.rsplit_once('-').unwrap();
    let clock: Vec<u32> = time.split(':').map(|part| part.parse().unwrap()).collect();
    CivilTime {
        year: year.parse().unwrap(),
        month: month.parse().unwrap(),
        day: day.parse().unwrap(),
        hour: clock[0],
        minute: clock[1],
        second: clock[2],
    }
}

fn civil(year: i32, month: u32, day: u32, hour: u32, minute: u32, second: u32) -> CivilTime {
    CivilTime { year, month, day, hour, minute, second }
}

#[test]
fn calendar_time_is_written_with_leading_zeros() {
    assert_eq!(civil(2024, 3, 5, 7, 8, 9).format(), "2024-03-05 07:08:09");
    assert_eq!(civil(1999, 12, 31, 23, 59, 59).format(), "1999-12-31 23:59:59");
    assert_eq!(civil(0, 1, 1, 0, 0, 0).format(), "0000-01-01 00:00:00");
    assert_eq!(civil(9999, 10, 20, 10, 20, 30).format(), "9999-10-20 10:20:30");
    assert_eq!(civil(476, 9, 4, 12, 0, 0).format(), "0476-09-04 12:00:00");
}

#[test]
fn years_beyond_four_digits_carry_a_sign() {
    assert_eq!(civil(10000, 1, 1, 0, 0, 0).format(), "+10000-01-01 00:00:00");
    assert_eq!(civil(262142, 12, 31, 1, 2, 3).format(), "+262142-12-31 01:02:03");
    assert_eq!(civil(-1, 6, 15, 1, 2, 3).format(), "-0001-06-15 01:02:03");
    assert_eq!(civil(-9999, 6, 15, 1, 2, 3).format(), "-9999-06-15 01:02:03");
    assert_eq!(civil(-10000, 6, 15, 1, 2, 3).format(), "-10000-06-15 01:02:03");
    assert_eq!(civil(i32::MIN, 1, 1, 0, 0, 0).format(), "-2147483648-01-01 00:00:00");
    assert_eq!(civil(i32::MAX, 1, 1, 0, 0, 0).format(), "+2147483647-01-01 00:00:00");
}

#[test]
fn four_digit_numerals() {
    let mut out = String::new();
    push_four_digits(&mut out, 0);
    push_four_digits(&mut out, 42);
    push_four_digits(&mut out, 9999);
    assert_eq!(out, "000000429999");
}

#[test]
fn instants_are_written_as_the_calendar_library_writes_them() {
    let instants: [i64; 9] = [
        0,
        1,
        86_399,
        951_782_400,
        1_709_164_800,
        1_735_689_599,
        4_102_444_800,
        -86_400,
        253_402_214_400,
    ];
    for secs in instants {
        let expected = Local
            .timestamp_opt(secs, 0)
            .single()
            .map(|t| t.format("%Y-%m-%d %H:%M:%S").to_string());
        assert_eq!(timestamp_text(secs), expected, "instant {}", secs);
        assert_eq!(timestamp_text(secs).map(|t| t.len()), Some(19));
    }
}

#[test]
fn far_years_are_written_as_the_calendar_library_writes_them() {
    for secs in [400_000_000_000i64, -70_000_000_000, -400_000_000_000, 8_000_000_000_000] {
        let expected = Local
            .timestamp_opt(secs, 0)
            .single()
            .map(|t| t.format("%Y-%m-%d %H:%M:%S").to_string());
        assert!(expected.is_some());
        assert_eq!(timestamp_text(secs), expected, "instant {}", secs);
    }
}

#[test]
fn calendar_holds_the_years_from_the_epoch_to_the_last_of_four_digits() {
    assert_eq!(CALENDAR_START, 0);
    assert_eq!(CALENDAR_END, 253_402_300_799);
    let first = timestamp_text(CALENDAR_START).unwrap();
    let last = timestamp_text(CALENDAR_END).unwrap();
    assert!(first.starts_with("1969-12-31 ") || first.starts_with("1970-01-01 "));
    assert!(last.starts_with("9999-12-31 ") || last.starts_with("+10000-01-01 "));
    let mut secs = CALENDAR_START;
    while secs <= CALENDAR_END {
        assert!(timestamp_text(secs).is_some());
        secs += 1_234_567_891;
    }
}

#[test]
fn instants_beyond_the_calendar_have_no_text() {
    assert_eq!(timestamp_text(i64::MAX), None);
    assert_eq!(timestamp_text(i64::MIN), None);
}

#[test]
fn usable_instants() {
    assert!(is_usable_now(0));
    assert!(is_usable_now(1_700_000_000));
    assert!(is_usable_now(i64::MAX - 360));
    assert!(!is_usable_now(i64::MAX - 359));
    assert!(is_usable_now(i64::MIN + 604_800));
    assert!(!is_usable_now(i64::MIN + 604_799));
}

#[test]
fn seconds_from_the_epoch_of_known_times() {
    assert_eq!(civil(1970, 1, 1, 0, 0, 0).epoch_seconds(), 0);
    assert_eq!(civil(1970, 1, 1, 0, 0, 1).epoch_seconds(), 1);
    assert_eq!(civil(1969, 12, 31, 23, 59, 59).epoch_seconds(), -1);
    assert_eq!(civil(1970, 1, 2, 0, 0, 0).epoch_seconds(), 86_400);
    assert_eq!(civil(2000, 2, 29, 12, 0, 0).epoch_seconds(), 951_825_600);
    assert_eq!(civil(2000, 3, 1, 0, 0, 0).epoch_seconds(), 951_868_800);
    assert_eq!(civil(2023, 11, 14, 22, 13, 20).epoch_seconds(), 1_700_000_000);
    assert_eq!(civil(9999, 12, 31, 23, 59, 59).epoch_seconds(), 253_402_300_799);
    assert_eq!(civil(0, 1, 1, 0, 0, 0).epoch_seconds(), -62_167_219_200);
}

#[test]
fn seconds_from_the_epoch_agree_with_the_calendar_library() {
    let years = [
        -262_000, -10_001, -401, -400, -1, 0, 1, 4, 100, 399, 400, 1600, 1899, 1900, 1969, 1970,
        1999, 2000, 2023, 2024, 2100, 9999, 10_000, 262_000,
    ];
    let days = [(1, 1), (1, 31), (2, 1), (2, 28), (3, 1), (6, 30), (12, 31)];
    for year in years {
        for (month, day) in days {
            let expected = Utc.with_ymd_and_hms(year, month, day, 13, 7, 59).unwrap().timestamp();
            assert_eq!(civil(year, month, day, 13, 7, 59).epoch_seconds(), expected);
        }
    }
    for year in [-400, 0, 4, 1600, 2000, 2024] {
        let expected = Utc.with_ymd_and_hms(year, 2, 29, 0, 0, 0).unwrap().timestamp();
        assert_eq!(civil(year, 2, 29, 0, 0, 0).epoch_seconds(), expected);
    }
}

#[test]
fn written_time_lies_less_than_a_day_from_the_instant() {
    let instants: [i64; 10] = [
        0,
        59,
        86_399,
        951_782_400,
        1_700_000_000,
        4_102_444_800,
        253_402_300_799,
        -86_400,
        -70_000_000_000,
        400_000_000_000,
    ];
    for secs in instants {
        let shown = read(&timestamp_text(secs).unwrap());
        let offset = Local.timestamp_opt(secs, 0).unwrap().offset().fix().local_minus_utc();
        assert_eq!(shown.epoch_seconds(), secs + offset as i64, "instant {}", secs);
        assert!((shown.epoch_seconds() - secs).abs() < 86_400);
    }
}

#[test]
fn different_instants_are_written_differently() {
    assert_ne!(timestamp_text(0), timestamp_text(1));
    assert_ne!(timestamp_text(1_700_000_000), timestamp_text(1_700_000_000 - 86_400));
    assert!(timestamp_text(1_700_000_000 - 6 * 86_400) < timestamp_text(1_700_000_000));
}

#[test]
fn instants_days_before() {
    assert_eq!(days_before(1_700_000_000, 0), 1_700_000_000);
    assert_eq!(days_before(1_700_000_000, 1), 1_699_913_600);
    assert_eq!(days_before(1_700_000_000, 7), 1_699_395_200);
    assert_eq!(days_before(i64::MIN + 604_800, 7), i64::MIN);
}
