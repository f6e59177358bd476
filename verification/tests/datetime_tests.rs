use qfx::parse_ofx_datetime;
use qfx::QFXParsingError;
use qfx::UtcDateTime;

#[test]
fn test_datetime_parser_valid_basic() {
    // Basic OFX datetime without timezone or T
    let dt = parse_ofx_datetime("20250725143000").unwrap();
    let correct_dt = UtcDateTime::from_ymd_hms(2025, 7, 25, 14, 30, 0).unwrap();
    assert_eq!(dt, correct_dt);
}

#[test]
fn test_datetime_parser_valid_with_t() {
    // OFX datetime with T separator
    let dt = parse_ofx_datetime("20250725T143000").unwrap();
    let correct_dt = UtcDateTime::from_ymd_hms(2025, 7, 25, 14, 30, 0).unwrap();
    assert_eq!(dt, correct_dt);
}

#[test]
fn test_datetime_parser_valid_with_z() {
    // OFX datetime with Z suffix
    let dt = parse_ofx_datetime("20250725T143000Z").unwrap();
    let correct_dt = UtcDateTime::from_ymd_hms(2025, 7, 25, 14, 30, 0).unwrap();
    assert_eq!(dt, correct_dt);
}

#[test]
fn test_datetime_parser_valid_with_bracketed() {
    // OFX datetime with bracketed timezone info
    let dt = parse_ofx_datetime("20250725143000[+7:PDT]").unwrap();
    let correct_dt = UtcDateTime::from_ymd_hms(2025, 7, 25, 14, 30, 0).unwrap();
    assert_eq!(dt, correct_dt);
}

#[test]
fn test_datetime_parser_valid_with_t_and_bracketed() {
    // OFX datetime with T and bracketed timezone info
    let dt = parse_ofx_datetime("20250725T143000[+7:PDT]").unwrap();
    let correct_dt = UtcDateTime::from_ymd_hms(2025, 7, 25, 14, 30, 0).unwrap();
    assert_eq!(dt, correct_dt);
}

#[test]
fn test_datetime_parser_invalid() {
    // Invalid format should return error
    let dt = parse_ofx_datetime("invalid-date-string");
    assert!(dt.is_err());
}

#[test]
fn test_datetime_round_trip_all_spellings() {
    // All accepted spellings of one instant normalize to the same UTC value,
    // and a bare date without a time of day is rejected.
    let expected = UtcDateTime::from_ymd_hms(2025, 7, 25, 14, 30, 0).unwrap();
    let spellings = [
        "20250725143000",
        "20250725T143000",
        "20250725T143000Z",
        "20250725143000[+7:PDT]",
        "20250725T143000[+7:PDT]",
    ];
    for s in spellings.iter() {
        assert_eq!(parse_ofx_datetime(s).unwrap(), expected);
    }
    assert!(parse_ofx_datetime("20250725").is_err());
}

#[test]
fn test_datetime_fractional_seconds() {
    // Fractional seconds are kept to millisecond resolution.
    let dt = parse_ofx_datetime("20240101T123456.789Z").unwrap();
    let correct_dt = UtcDateTime::from_ymd_hms_milli(2024, 1, 1, 12, 34, 56, 789).unwrap();
    assert_eq!(dt, correct_dt);
    // A single fractional digit means tenths of a second.
    let dt = parse_ofx_datetime("20240101T123456.7").unwrap();
    let correct_dt = UtcDateTime::from_ymd_hms_milli(2024, 1, 1, 12, 34, 56, 700).unwrap();
    assert_eq!(dt, correct_dt);
    // Digits beyond the millisecond are truncated.
    let dt = parse_ofx_datetime("20240101T123456.789999Z").unwrap();
    let correct_dt = UtcDateTime::from_ymd_hms_milli(2024, 1, 1, 12, 34, 56, 789).unwrap();
    assert_eq!(dt, correct_dt);
}

#[test]
fn test_datetime_calendar_checked() {
    // Month, day, hour, minute and second must name a real instant.
    assert!(parse_ofx_datetime("20250231143000").is_err()); // Feb 31
    assert!(parse_ofx_datetime("20251325143000").is_err()); // month 13
    assert!(parse_ofx_datetime("20250725243000").is_err()); // hour 24
    assert!(parse_ofx_datetime("20250725146000").is_err()); // minute 60
    assert!(parse_ofx_datetime("20250725143060").is_err()); // second 60
    // Leap year: Feb 29 exists in 2024 but not in 2025.
    assert!(parse_ofx_datetime("20240229120000").is_ok());
    assert!(parse_ofx_datetime("20250229120000").is_err());
}

#[test]
fn test_datetime_error_carries_the_value() {
    match parse_ofx_datetime("20250725") {
        Err(QFXParsingError::UnexpectedDateFormat(msg)) => {
            assert!(msg.contains("20250725"));
        }
        other => panic!("expected UnexpectedDateFormat, got {:?}", other),
    }
}
