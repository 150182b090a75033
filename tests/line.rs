use subshift::line::{is_timing_line, process_duration, shift_line, SEPARATOR};
use subshift::timestamp::ParseCause;

#[test]
fn timing_line_is_shifted() {
    assert_eq!(
        shift_line("00:04:45,271 --> 00:04:48,406", 100).unwrap(),
        "00:04:45,371 --> 00:04:48,506"
    );
}

#[test]
fn timing_line_is_shifted_back() {
    assert_eq!(
        shift_line("00:04:45,271 --> 00:04:48,406", -127).unwrap(),
        "00:04:45,144 --> 00:04:48,279"
    );
}

#[test]
fn other_lines_pass_through() {
    for line in [
        "",
        "1",
        "When you're underwater",
        "<i>you lose all sense</i>",
        "a-->without spaces-->here",
        "-->",
        "00:04:45,271->00:04:48,406",
        "naïve café – ünïcödé",
    ] {
        assert_eq!(shift_line(line, 100).unwrap(), line);
    }
}

#[test]
fn separator_is_recognised() {
    assert!(is_timing_line("00:04:45,271 --> 00:04:48,406"));
    assert!(is_timing_line(" --> "));
    assert!(is_timing_line("text --> text"));
    assert!(!is_timing_line("text-->text"));
    assert!(!is_timing_line(" -> "));
    assert!(!is_timing_line(""));
    assert!(!is_timing_line(" --"));
}

#[test]
fn bad_timestamp_names_line_and_piece() {
    let line = "00:04:45,271 --> 00:04:48.406";
    let err = shift_line(line, 100).unwrap_err();
    assert_eq!(err.line, line);
    assert_eq!(err.cause.text, "00:04:48.406");
    assert_eq!(err.cause.cause, ParseCause::WrongSeparator);
}

#[test]
fn first_bad_piece_is_reported() {
    let err = shift_line("xx --> 99:00:00,000", 1).unwrap_err();
    assert_eq!(err.cause.text, "xx");
    assert_eq!(err.cause.cause, ParseCause::WrongLength);
}

#[test]
fn surrounding_spaces_are_part_of_the_piece() {
    let err = shift_line(" 00:04:45,271 --> 00:04:48,406", 1).unwrap_err();
    assert_eq!(err.cause.text, " 00:04:45,271");
    assert_eq!(err.cause.cause, ParseCause::WrongLength);
}

#[test]
fn every_piece_is_shifted() {
    assert_eq!(
        process_duration("00:00:00,000 --> 00:00:01,000 --> 23:59:59,999", 1, SEPARATOR).unwrap(),
        "00:00:00,001 --> 00:00:01,001 --> 00:00:00,000"
    );
}

#[test]
fn other_separator_is_used() {
    assert_eq!(
        process_duration("00:00:00,000|00:00:01,000", 10, "|").unwrap(),
        "00:00:00,010|00:00:01,010"
    );
}

#[test]
fn line_without_separator_is_one_piece() {
    assert_eq!(process_duration("00:00:00,000", 1, SEPARATOR).unwrap(), "00:00:00,001");
    assert!(process_duration("hello", 1, SEPARATOR).is_err());
}

#[test]
fn empty_pieces_are_rejected() {
    let err = process_duration(" --> ", 1, SEPARATOR).unwrap_err();
    assert_eq!(err.cause.text, "");
    assert_eq!(err.cause.cause, ParseCause::WrongLength);
}

#[test]
fn wrapping_timing_line() {
    assert_eq!(
        shift_line("23:59:59,900 --> 00:00:00,000", 200).unwrap(),
        "00:00:00,100 --> 00:00:00,200"
    );
}
