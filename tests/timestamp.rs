use subshift::timestamp::{apply_offset, ParseCause, TimeOfDay, MS_PER_DAY};

fn time(hour: u32, minute: u32, second: u32, milli: u32) -> TimeOfDay {
    TimeOfDay { hour, minute, second, milli }
}

fn parse_ok(text: &str) -> TimeOfDay {
    TimeOfDay::parse(text).unwrap()
}

fn cause_of(text: &str) -> ParseCause {
    TimeOfDay::parse(text).unwrap_err().cause
}

#[test]
fn apply_offset_with_zero_offset() {
    assert_eq!(apply_offset("01:29:13,905", 0).unwrap(), "01:29:13,905");
}

#[test]
fn apply_offset_with_positive_offset() {
    assert_eq!(apply_offset("01:29:13,905", 100).unwrap(), "01:29:14,005");
}

#[test]
fn apply_offset_with_negative_offset() {
    assert_eq!(apply_offset("01:29:13,905", -100).unwrap(), "01:29:13,805");
}

#[test]
fn apply_offset_with_invalid_format() {
    assert!(apply_offset("01:29:13:905", 10).is_err());
}

#[test]
fn parse_reads_each_field() {
    assert_eq!(parse_ok("00:04:45,271"), time(0, 4, 45, 271));
    assert_eq!(parse_ok("23:59:59,999"), time(23, 59, 59, 999));
    assert_eq!(parse_ok("00:00:00,000"), time(0, 0, 0, 0));
}

#[test]
fn format_pads_with_zeros() {
    assert_eq!(time(1, 2, 3, 4).format(), "01:02:03,004");
    assert_eq!(time(0, 0, 0, 50).format(), "00:00:00,050");
    assert_eq!(time(23, 59, 59, 999).format(), "23:59:59,999");
}

#[test]
fn format_of_parse_gives_back_the_text() {
    for text in ["00:00:00,000", "01:29:13,905", "12:34:56,789", "23:59:59,999", "09:09:09,009"] {
        assert_eq!(parse_ok(text).format(), text);
    }
}

#[test]
fn parse_of_format_gives_back_the_time() {
    for t in [time(0, 0, 0, 0), time(7, 8, 9, 10), time(23, 59, 59, 999), time(10, 0, 1, 100)] {
        assert_eq!(parse_ok(&t.format()), t);
    }
}

#[test]
fn parse_rejects_colon_before_millis() {
    let err = TimeOfDay::parse("01:29:13:905").unwrap_err();
    assert_eq!(err.cause, ParseCause::WrongSeparator);
    assert_eq!(err.text, "01:29:13:905");
}

#[test]
fn parse_reports_each_cause() {
    assert_eq!(cause_of(""), ParseCause::WrongLength);
    assert_eq!(cause_of("1:29:13,905"), ParseCause::WrongLength);
    assert_eq!(cause_of("01:29:13,9050"), ParseCause::WrongLength);
    assert_eq!(cause_of("01:29:13,90"), ParseCause::WrongLength);
    assert_eq!(cause_of("01-29:13,905"), ParseCause::WrongSeparator);
    assert_eq!(cause_of("01:29:13.905"), ParseCause::WrongSeparator);
    assert_eq!(cause_of("0a:29:13,905"), ParseCause::NotADigit);
    assert_eq!(cause_of("01:29:13,9x5"), ParseCause::NotADigit);
    assert_eq!(cause_of(" 1:29:13,905"), ParseCause::NotADigit);
    assert_eq!(cause_of("24:00:00,000"), ParseCause::HourOutOfRange);
    assert_eq!(cause_of("00:60:00,000"), ParseCause::MinuteOutOfRange);
    assert_eq!(cause_of("00:00:60,000"), ParseCause::SecondOutOfRange);
}

#[test]
fn shift_by_zero_changes_nothing() {
    for t in [time(0, 0, 0, 0), time(1, 29, 13, 905), time(23, 59, 59, 999)] {
        assert_eq!(t.shifted(0), t);
    }
}

#[test]
fn shift_back_and_forth_gives_back_the_time() {
    for t in [time(0, 0, 0, 0), time(1, 29, 13, 905), time(23, 59, 59, 999)] {
        for d in [1i64, -1, 100, -127, 127, 86_399_999, -86_400_001, i64::MAX] {
            assert_eq!(t.shifted(d).shifted(-d), t);
        }
    }
}

#[test]
fn shift_wraps_past_midnight() {
    assert_eq!(parse_ok("23:59:59,900").shifted(200), parse_ok("00:00:00,100"));
    assert_eq!(apply_offset("23:59:59,900", 200).unwrap(), "00:00:00,100");
}

#[test]
fn shift_wraps_before_midnight() {
    assert_eq!(parse_ok("00:00:00,000").shifted(-1), parse_ok("23:59:59,999"));
    assert_eq!(apply_offset("00:00:00,000", -1).unwrap(), "23:59:59,999");
}

#[test]
fn shift_by_whole_days_changes_nothing() {
    let t = time(13, 14, 15, 16);
    assert_eq!(t.shifted(MS_PER_DAY), t);
    assert_eq!(t.shifted(-3 * MS_PER_DAY), t);
}

#[test]
fn shift_by_extreme_offsets() {
    let t = time(0, 0, 0, 0);
    let expected_min = (i64::MIN % MS_PER_DAY + MS_PER_DAY) % MS_PER_DAY;
    let expected_max = i64::MAX % MS_PER_DAY;
    assert_eq!(t.shifted(i64::MIN), at_ms(expected_min));
    assert_eq!(t.shifted(i64::MAX), at_ms(expected_max));
}

fn at_ms(x: i64) -> TimeOfDay {
    let x = x as u32;
    time(x / 3_600_000, x / 60_000 % 60, x / 1000 % 60, x % 1000)
}

#[test]
fn shift_carries_across_fields() {
    assert_eq!(time(0, 59, 59, 999).shifted(1), time(1, 0, 0, 0));
    assert_eq!(time(1, 0, 0, 0).shifted(-1), time(0, 59, 59, 999));
    assert_eq!(time(10, 20, 30, 400).shifted(3_600_000 + 60_000 + 1000 + 1), time(11, 21, 31, 401));
}

#[test]
fn apply_offset_reports_the_text() {
    let err = apply_offset("25:00:00,000", 5).unwrap_err();
    assert_eq!(err.cause, ParseCause::HourOutOfRange);
    assert_eq!(err.text, "25:00:00,000");
}
