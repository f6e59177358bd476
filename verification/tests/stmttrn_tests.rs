use qfx::tokenize;
use qfx::Amount;
use qfx::QFXParsingError;
use qfx::Stmttrn;
use qfx::UtcDateTime;

#[test]
fn test_stmttrn_parse_valid_minimal() {
    let input = "\
                <TRNTYPE>DEBIT\
                <DTPOSTED>20250725T143000Z\
                <TRNAMT>-100.51\
                <FITID>12345\
                <NAME>Test Transaction\
                <CHECKNUM>1001\
            </STMTTRN>";
    let mut tokens = tokenize(input);
    let stmttrn = Stmttrn::parse(&mut tokens).unwrap();
    assert_eq!(stmttrn.trans_type, "DEBIT");
    assert_eq!(
        stmttrn.dt_posted,
        UtcDateTime::from_ymd_hms(2025, 7, 25, 14, 30, 0).unwrap()
    );
    assert_eq!(
        stmttrn.trans_amount,
        Amount { negative: true, units: 100, frac: vec![5, 1] }
    );
    assert_eq!(stmttrn.fit_id, "12345");
    assert_eq!(stmttrn.name, "Test Transaction");
    assert!(stmttrn.memo.is_none());
    assert!(stmttrn.correct_fit_id.is_none());
    assert!(stmttrn.correct_action.is_none());
}

#[test]
fn test_stmttrn_parse_invalid_transaction() {
    let input = "\
                <TRNTYPE>DEBIT\
                <DTPOSTED>20250725T143000Z\
                <TRNAMT>100123456-7891\
                <FITID>12345\
                <NAME>Test Transaction\
                <CHECKNUM>1001\
            </STMTTRN>";
    let mut tokens = tokenize(input);
    let stmttrn = Stmttrn::parse(&mut tokens);
    assert!(stmttrn.is_err());
    if let Err(e) = stmttrn {
        assert!(
            matches!(e, QFXParsingError::InvalidTransactionAmount(_)),
            "Expected InvalidTransactionAmount error, got: {:?}",
            e
        );
    }
}

#[test]
fn test_stmttrn_parse_missing_transaction() {
    let input = "\
                <TRNTYPE>DEBIT\
                <DTPOSTED>20250725T143000Z\
                <FITID>12345\
                <NAME>Test Transaction\
            </STMTTRN>";
    let mut tokens = tokenize(input);
    let stmttrn = Stmttrn::parse(&mut tokens);
    assert!(stmttrn.is_err());
    if let Err(e) = stmttrn {
        assert!(
            matches!(e, QFXParsingError::MissingRequiredValue(_)),
            "Expected MissingRequiredValue error, got: {:?}",
            e
        );
    }
}

#[test]
fn test_stmttrn_parse_missing_date_posted() {
    let input = "\
                <TRNTYPE>DEBIT\
                <TRNAMT>1001237891\
                <FITID>12345\
                <NAME>Test Transaction\
            </STMTTRN>";
    let mut tokens = tokenize(input);
    let stmttrn = Stmttrn::parse(&mut tokens);
    assert!(stmttrn.is_err());
    if let Err(e) = stmttrn {
        assert!(
            matches!(e, QFXParsingError::MissingRequiredValue(_)),
            "Expected MissingRequiredValue error, got: {:?}",
            e
        );
    }
}

#[test]
fn test_stmttrn_parse_missing_name() {
    let input = "\
                <TRNTYPE>DEBIT\
                <DTPOSTED>20250725T143000Z\
                <TRNAMT>1001237891\
                <FITID>12345\
            </STMTTRN>";
    let mut tokens = tokenize(input);
    let stmttrn = Stmttrn::parse(&mut tokens);
    assert!(stmttrn.is_err());
    if let Err(e) = stmttrn {
        assert!(
            matches!(e, QFXParsingError::MissingRequiredValue(_)),
            "Expected MissingRequiredValue error, got: {:?}",
            e
        );
    }
}

#[test]
fn test_stmttrn_parse_missing_fitid() {
    let input = "\
                <TRNTYPE>DEBIT\
                <DTPOSTED>20250725T143000Z\
                <TRNAMT>1001237891\
                <NAME>Test Transaction\
            </STMTTRN>";
    let mut tokens = tokenize(input);
    let stmttrn = Stmttrn::parse(&mut tokens);
    assert!(stmttrn.is_err());
    if let Err(e) = stmttrn {
        assert!(
            matches!(e, QFXParsingError::MissingRequiredValue(_)),
            "Expected MissingRequiredValue error, got: {:?}",
            e
        );
    }
}

#[test]
fn test_stmttrn_parse_missing_transaction_type() {
    let input = "\
                <DTPOSTED>20250725T143000Z\
                <TRNAMT>1001237891\
                <FITID>12345\
                <NAME>Test Transaction\
            </STMTTRN>";
    let mut tokens = tokenize(input);
    let stmttrn = Stmttrn::parse(&mut tokens);
    assert!(stmttrn.is_err());
    if let Err(e) = stmttrn {
        assert!(
            matches!(e, QFXParsingError::MissingRequiredValue(_)),
            "Expected MissingRequiredValue error, got: {:?}",
            e
        );
    }
}
