use autosplitter::duration::parse_duration;
use autosplitter::SplitError;

#[test]
fn duration_line_parses_to_hundredths() {
    let text = "Input #0\n  Duration: 01:02:03.04, start: 0.0\n";
    // 1 h, 2 min, 3 s and 4 hundredths: (3600 + 120 + 3) * 100 + 4
    assert_eq!(parse_duration(text), Ok(372304));
}

#[test]
fn parsed_duration_in_seconds_matches_the_clock_reading() {
    let text = "Duration: 01:02:03.04";
    let cs = parse_duration(text).unwrap();
    assert_eq!(cs as f64 / 100.0, 3723.04);
}

#[test]
fn bare_timestamp_parses() {
    assert_eq!(parse_duration("12:34:56.78"), Ok((12 * 3600 + 34 * 60 + 56) * 100 + 78));
}

#[test]
fn first_timestamp_wins() {
    let text = "Duration: 00:00:02.00 then 00:00:09.00";
    assert_eq!(parse_duration(text), Ok(200));
}

#[test]
fn text_without_timestamp_is_not_found() {
    assert_eq!(parse_duration("no duration here"), Err(SplitError::DurationNotFound));
}

#[test]
fn empty_text_is_not_found() {
    assert_eq!(parse_duration(""), Err(SplitError::DurationNotFound));
}

#[test]
fn single_digit_hours_do_not_match() {
    assert_eq!(parse_duration("1:02:03.4"), Err(SplitError::DurationNotFound));
}

#[test]
fn timestamp_needs_its_separators() {
    assert_eq!(parse_duration("0102:03.04 11-22-33.44"), Err(SplitError::DurationNotFound));
}

#[test]
fn comma_instead_of_dot_does_not_match() {
    assert_eq!(parse_duration("Duration: 01:02:03,04"), Err(SplitError::DurationNotFound));
}

#[test]
fn zero_duration_parses_to_zero() {
    assert_eq!(parse_duration("Duration: 00:00:00.00"), Ok(0));
}
