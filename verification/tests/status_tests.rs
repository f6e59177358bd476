use qfx::tokenize;
use qfx::QFXParsingError;
use qfx::Status;

#[test]
fn test_status_parse_valid_all_fields() {
    let input = "\
            <CODE>200\
            <SEVERITY>INFO\
            <MESSAGE>Everything OK\
        </STATUS>";
    let mut tokens = tokenize(input);
    let result = Status::parse(&mut tokens);
    assert!(result.is_ok());
    let status = result.unwrap();
    assert_eq!(status.code, "200");
    assert_eq!(status.severity, "INFO");
    assert_eq!(status.message, Some("Everything OK".to_string()));
}

#[test]
fn test_status_parse_missing_code() {
    let input = "\
            <SEVERITY>ERROR\
            <MESSAGE>Missing code\
        </STATUS>";
    let mut tokens = tokenize(input);
    let result = Status::parse(&mut tokens);
    assert!(result.is_err());
    if let Err(e) = result {
        assert!(matches!(e, QFXParsingError::MissingRequiredValue(_)));
    }
}

#[test]
fn test_status_parse_missing_severity() {
    let input = "\
            <CODE>404\
            <MESSAGE>Missing severity\
        </STATUS>";
    let mut tokens = tokenize(input);
    let result = Status::parse(&mut tokens);
    assert!(result.is_err());
    if let Err(e) = result {
        assert!(matches!(e, QFXParsingError::MissingRequiredValue(_)));
    }
}
