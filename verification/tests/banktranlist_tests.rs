use qfx::tokenize;
use qfx::BankTranList;
use qfx::QFXParsingError;
use qfx::UtcDateTime;

#[test]
fn test_banktranlist_parse_valid() {
    let input = "\
            <DTSTART>20250725T143000Z\
            <DTEND>20250726T143000Z\
            <STMTTRN>\
                <TRNTYPE>DEBIT\
                <DTPOSTED>20250725T143000Z\
                <TRNAMT>-100.51\
                <FITID>12345\
                <NAME>Test Transaction\
            </STMTTRN>\
            <STMTTRN>\
                <TRNTYPE>CREDIT\
                <DTPOSTED>20250726T143000Z\
                <TRNAMT>200.00\
                <FITID>12346\
                <NAME>Another Transaction\
            </STMTTRN>\
        </BANKTRANLIST>";
    let mut tokens = tokenize(input);
    let result = BankTranList::parse(&mut tokens);
    assert!(
        result.is_ok(),
        "Expected parse to succeed, got: {:?}",
        result.err()
    );
    let banktranlist = result.unwrap();
    assert_eq!(
        banktranlist.dt_start,
        UtcDateTime::from_ymd_hms(2025, 7, 25, 14, 30, 0).unwrap()
    );
    assert_eq!(
        banktranlist.dt_end,
        UtcDateTime::from_ymd_hms(2025, 7, 26, 14, 30, 0).unwrap()
    );
    assert_eq!(banktranlist.transactions.len(), 2);
    assert_eq!(banktranlist.transactions[0].trans_type, "DEBIT");
    assert_eq!(banktranlist.transactions[1].trans_type, "CREDIT");
}

#[test]
fn test_banktranlist_parse_missing_dtstart() {
    let input = "\
            <DTEND>20250726T143000Z\
            </BANKTRANLIST>";
    let mut tokens = tokenize(input);
    let result = BankTranList::parse(&mut tokens);
    assert!(result.is_err());
    if let Err(e) = result {
        assert!(
            matches!(e, QFXParsingError::MissingRequiredValue(_)),
            "Expected MissingRequiredValue error for missing DTSTART, got: {:?}",
            e
        );
    }
}

#[test]
fn test_banktranlist_parse_missing_dtend() {
    let input = "\
            <DTSTART>20250725T143000Z\
            </BANKTRANLIST>";
    let mut tokens = tokenize(input);
    let result = BankTranList::parse(&mut tokens);
    assert!(result.is_err());
    if let Err(e) = result {
        assert!(
            matches!(e, QFXParsingError::MissingRequiredValue(_)),
            "Expected MissingRequiredValue error for missing DTEND, got: {:?}",
            e
        );
    }
}

#[test]
fn test_banktranlist_parse_missing_end_tag() {
    let input = "\
            <DTSTART>20250725T143000Z\
            <DTEND>20250726T143000Z\
        ";
    let mut tokens = tokenize(input);
    let result = BankTranList::parse(&mut tokens);
    assert!(result.is_err());
    if let Err(e) = result {
        assert!(
            matches!(e, QFXParsingError::UnexpectedEOF(_)),
            "Expected UnexpectedEOF error for missing /BANKTRANLIST, got: {:?}",
            e
        );
    }
}

#[test]
fn test_banktranlist_transactions_keep_source_order() {
    // Two STMTTRN blocks decode into a two-element list in input order.
    let input = "\
            <DTSTART>20250725T143000Z\
            <DTEND>20250726T143000Z\
            <STMTTRN>\
                <TRNTYPE>DEBIT\
                <DTPOSTED>20250725T143000Z\
                <TRNAMT>-1\
                <FITID>first\
                <NAME>First\
            </STMTTRN>\
            <STMTTRN>\
                <TRNTYPE>DEBIT\
                <DTPOSTED>20250725T143000Z\
                <TRNAMT>-2\
                <FITID>second\
                <NAME>Second\
            </STMTTRN>\
        </BANKTRANLIST>";
    let mut tokens = tokenize(input);
    let list = BankTranList::parse(&mut tokens).unwrap();
    assert_eq!(list.transactions.len(), 2);
    assert_eq!(list.transactions[0].fit_id, "first");
    assert_eq!(list.transactions[1].fit_id, "second");
}
