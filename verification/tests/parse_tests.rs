use alarm_clock::parse::ParseError;
use alarm_clock::{format_date_time, parse_date_time, DateTime};

#[test]
fn parse_reads_every_field() {
    let dt = parse_date_time("2024-01-01 10:00:00").unwrap();
    assert_eq!(dt.year, 2024);
    assert_eq!(dt.month, 1);
    assert_eq!(dt.day, 1);
    assert_eq!(dt.hour, 10);
    assert_eq!(dt.minute, 0);
    assert_eq!(dt.second, 0);
}

#[test]
fn parse_then_format_round_trips() {
    let inputs = [
        "2024-01-01 10:00:00",
        "2024-02-29 23:59:59",
        "0001-12-31 00:00:01",
        "9999-12-31 23:59:59",
        "2023-06-15 07:08:09",
    ];
    for input in inputs {
        let dt = parse_date_time(input).unwrap();
        assert_eq!(format_date_time(&dt), input);
    }
}

#[test]
fn format_zero_pads_every_field() {
    let dt = DateTime { year: 1, month: 2, day: 3, hour: 4, minute: 5, second: 6 };
    assert_eq!(format_date_time(&dt), "0001-02-03 04:05:06");
}

#[test]
fn malformed_input_is_rejected() {
    assert_eq!(parse_date_time("2024-13-40 99:99:99"), Err(ParseError::FieldOutOfRange));
    assert_eq!(parse_date_time(""), Err(ParseError::BadFormat));
    assert_eq!(parse_date_time("not a date and time"), Err(ParseError::BadFormat));
    assert_eq!(parse_date_time("2024-01-01T10:00:00"), Err(ParseError::BadFormat));
    assert_eq!(parse_date_time("2024-01-01 10:00"), Err(ParseError::BadFormat));
    assert_eq!(parse_date_time("2024-01-01 10:00:0x"), Err(ParseError::BadFormat));
    assert_eq!(parse_date_time("2024-01-01 10:00:00 "), Err(ParseError::BadFormat));
}

#[test]
fn out_of_range_fields_are_rejected() {
    assert_eq!(parse_date_time("2024-00-10 10:00:00"), Err(ParseError::FieldOutOfRange));
    assert_eq!(parse_date_time("2024-01-00 10:00:00"), Err(ParseError::FieldOutOfRange));
    assert_eq!(parse_date_time("2024-01-32 10:00:00"), Err(ParseError::FieldOutOfRange));
    assert_eq!(parse_date_time("2024-04-31 10:00:00"), Err(ParseError::FieldOutOfRange));
    assert_eq!(parse_date_time("2024-01-01 24:00:00"), Err(ParseError::FieldOutOfRange));
    assert_eq!(parse_date_time("2024-01-01 10:60:00"), Err(ParseError::FieldOutOfRange));
    assert_eq!(parse_date_time("2024-01-01 10:00:60"), Err(ParseError::FieldOutOfRange));
}

#[test]
fn leap_day_is_only_accepted_in_leap_years() {
    assert!(parse_date_time("2024-02-29 12:00:00").is_ok());
    assert!(parse_date_time("2000-02-29 12:00:00").is_ok());
    assert_eq!(parse_date_time("2023-02-29 12:00:00"), Err(ParseError::FieldOutOfRange));
    assert_eq!(parse_date_time("1900-02-29 12:00:00"), Err(ParseError::FieldOutOfRange));
}

#[test]
fn parse_error_messages_name_the_cause() {
    assert_eq!(
        ParseError::BadFormat.message(),
        "input does not match YYYY-MM-DD HH:MM:SS"
    );
    assert_eq!(
        ParseError::FieldOutOfRange.message(),
        "a date or time field is out of range"
    );
}
