use qfx::tokenize;
use qfx::AvailableBalance;
use qfx::LedgerBal;
use qfx::QFXParsingError;
use qfx::UtcDateTime;

#[test]
fn test_available_balance_parse_missing_amount() {
    let input = "<DTASOF>20250725T143000Z</AVAILBAL>";
    let mut tokens = tokenize(input);
    let result = AvailableBalance::parse(&mut tokens);
    assert!(result.is_err());
    if let Err(e) = result {
        assert!(
            matches!(e, QFXParsingError::MissingRequiredValue(_)),
            "Expected MissingRequiredValue error, got: {:?}",
            e
        );
    }
}

#[test]
fn test_available_balance_parse_missing_date() {
    let input = "<BALAMT>1234.56</AVAILBAL>";
    let mut tokens = tokenize(input);
    let result = AvailableBalance::parse(&mut tokens);
    assert!(result.is_err());
    if let Err(e) = result {
        assert!(
            matches!(e, QFXParsingError::MissingRequiredValue(_)),
            "Expected MissingRequiredValue error, got: {:?}",
            e
        );
    }
}

#[test]
fn test_available_balance_parse_valid() {
    let input = "\
            <BALAMT>1234.56\
            <DTASOF>20250725T143000Z\
        </AVAILBAL>";
    let mut tokens = tokenize(input);
    let result = AvailableBalance::parse(&mut tokens);
    assert!(
        result.is_ok(),
        "Expected parse to succeed, got: {:?}",
        result.err()
    );
    let avail_bal = result.unwrap();
    assert_eq!(avail_bal.balance_amount, "1234.56");
    assert_eq!(
        avail_bal.dt_as_of,
        UtcDateTime::from_ymd_hms(2025, 7, 25, 14, 30, 0).unwrap()
    );
}

#[test]
fn test_available_balance_parse_bad_date() {
    let input = "<BALAMT>1234.56<DTASOF>not-a-date</AVAILBAL>";
    let mut tokens = tokenize(input);
    let result = AvailableBalance::parse(&mut tokens);
    assert!(matches!(
        result,
        Err(QFXParsingError::UnexpectedDateFormat(msg)) if msg.contains("DTASOF")
    ));
}

#[test]
fn test_ledger_balance_parse_missing_amount() {
    let input = "<DTASOF>20250725T143000Z</LEDGERBAL>";
    let mut tokens = tokenize(input);
    let result = LedgerBal::parse(&mut tokens);
    assert!(result.is_err());
    if let Err(e) = result {
        assert!(
            matches!(e, QFXParsingError::MissingRequiredValue(_)),
            "Expected MissingRequiredValue error, got: {:?}",
            e
        );
    }
}

#[test]
fn test_ledger_balance_parse_missing_date() {
    let input = "<BALAMT>1234.56</LEDGERBAL>";
    let mut tokens = tokenize(input);
    let result = LedgerBal::parse(&mut tokens);
    assert!(result.is_err());
    if let Err(e) = result {
        assert!(
            matches!(e, QFXParsingError::MissingRequiredValue(_)),
            "Expected MissingRequiredValue error, got: {:?}",
            e
        );
    }
}

#[test]
fn test_ledger_balance_parse_valid() {
    let input = "\
            <BALAMT>1234.56\
            <DTASOF>20250725T143000Z\
        </LEDGERBAL>";
    let mut tokens = tokenize(input);
    let result = LedgerBal::parse(&mut tokens);
    assert!(
        result.is_ok(),
        "Expected parse to succeed, got: {:?}",
        result.err()
    );
    let ledger_bal = result.unwrap();
    assert_eq!(ledger_bal.balance_amount, "1234.56");
    assert_eq!(
        ledger_bal.dt_as_of,
        UtcDateTime::from_ymd_hms(2025, 7, 25, 14, 30, 0).unwrap()
    );
}
