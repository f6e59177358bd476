use qfx::tokenize;
use qfx::Bankacctfrom;
use qfx::BankMsgSrsV1;
use qfx::QFXParsingError;
use qfx::Stmtrs;
use qfx::Stmttrnrs;

#[test]
fn test_bankacctfrom_valid_minimal() {
    let input = "\
            <ACCTID>1234567890\
            <ACCTTYPE>CHECKING\
            </BANKACCTFROM>";
    let mut tokens = tokenize(input);
    let result = Bankacctfrom::parse(&mut tokens);
    assert!(result.is_ok());
    let bankacctfrom = result.unwrap();
    assert_eq!(bankacctfrom.acct_id, "1234567890");
    assert_eq!(bankacctfrom.acct_type, "CHECKING");
    assert!(bankacctfrom.bank_id.is_none());
}

#[test]
fn test_bankacctfrom_valid_with_bank_id() {
    let input = "\
            <ACCTID>1234567890\
            <ACCTTYPE>SAVINGS\
            <BANKID>123456789\
            </BANKACCTFROM>";
    let mut tokens = tokenize(input);
    let result = Bankacctfrom::parse(&mut tokens);
    assert!(result.is_ok());
    let bankacctfrom = result.unwrap();
    assert_eq!(bankacctfrom.acct_id, "1234567890");
    assert_eq!(bankacctfrom.acct_type, "SAVINGS");
    assert_eq!(bankacctfrom.bank_id, Some("123456789".to_string()));
}

#[test]
fn test_bankacctfrom_missing_acctid() {
    let input = "\
            <ACCTTYPE>CHECKING\
            </BANKACCTFROM>";
    let mut tokens = tokenize(input);
    let result = Bankacctfrom::parse(&mut tokens);
    assert!(result.is_err());
    assert!(matches!(
        result,
        Err(QFXParsingError::MissingRequiredValue(msg)) if msg.contains("ACCTID is a required value")
    ));
}

#[test]
fn test_bankacctfrom_missing_accttype() {
    let input = "\
            <ACCTID>1234567890\
            </BANKACCTFROM>";
    let mut tokens = tokenize(input);
    let result = Bankacctfrom::parse(&mut tokens);
    assert!(result.is_err());
    assert!(matches!(
        result,
        Err(QFXParsingError::MissingRequiredValue(msg)) if msg.contains("ACCTTYPE is a required value")
    ));
}

#[test]
fn test_bankacctfrom_unknown_tag() {
    let input = "\
            <UNKNOWNTAG>value\
            <ACCTID>1234567890\
            <ACCTTYPE>CHECKING\
            </BANKACCTFROM>";
    let mut tokens = tokenize(input);
    let result = Bankacctfrom::parse(&mut tokens);
    assert!(result.is_err());
    assert!(matches!(
        result,
        Err(QFXParsingError::UnexpectedToken(msg)) if msg.contains("UNKNOWNTAG") && msg.contains("BANKACCTFROM")
    ));
}

#[test]
fn test_bankacctfrom_unexpected_eof_after_acctid() {
    let input = "<ACCTID>";
    let mut tokens = tokenize(input);
    let result = Bankacctfrom::parse(&mut tokens);
    assert!(result.is_err());
    assert!(matches!(
        result,
        Err(QFXParsingError::UnexpectedEOF(msg)) if msg.contains("Expected token following the ACCTID token")
    ));
}

#[test]
fn test_bankacctfrom_unexpected_eof_after_accttype() {
    let input = "\
            <ACCTID>1234567890\
            <ACCTTYPE>";
    let mut tokens = tokenize(input);
    let result = Bankacctfrom::parse(&mut tokens);
    assert!(result.is_err());
    assert!(matches!(
        result,
        Err(QFXParsingError::UnexpectedEOF(msg)) if msg.contains("Expected token following the ACCTTYPE token")
    ));
}

#[test]
fn test_bankacctfrom_unexpected_eof_after_bankid() {
    let input = "\
            <ACCTID>1234567890\
            <ACCTTYPE>CHECKING\
            <BANKID>";
    let mut tokens = tokenize(input);
    let result = Bankacctfrom::parse(&mut tokens);
    assert!(result.is_err());
    assert!(matches!(
        result,
        Err(QFXParsingError::UnexpectedEOF(msg)) if msg.contains("Expected token following the BANKID token")
    ));
}

#[test]
fn test_bankacctfrom_unexpected_eof_missing_closing_tag() {
    let input = "\
            <ACCTID>1234567890\
            <ACCTTYPE>CHECKING\
            <BANKID>123456789";
    let mut tokens = tokenize(input);
    let result = Bankacctfrom::parse(&mut tokens);
    assert!(result.is_err());
    assert!(matches!(
        result,
        Err(QFXParsingError::UnexpectedEOF(msg)) if msg.contains("Was still expecting the '/BANKACCTFROM' token")
    ));
}

#[test]
fn test_stmttrnrs_valid_minimal() {
    let input = "\
            <STMTRS>\
                <BANKACCTFROM>\
                    <ACCTID>1234567890\
                    <ACCTTYPE>CHECKING\
                </BANKACCTFROM>\
                <BANKTRANLIST>\
                    <DTSTART>20250715080000\
                    <DTEND>20250716090000\
                </BANKTRANLIST>\
            </STMTRS>\
            </STMTTRNRS>";
    let mut tokens = tokenize(input);
    let result = Stmttrnrs::parse(&mut tokens);
    assert!(result.is_ok());
    let stmttrnrs = result.unwrap();
    assert!(stmttrnrs.trnuid.is_none());
    assert!(stmttrnrs.status.is_none());
    assert_eq!(stmttrnrs.stmtrs.bankacctfrom.acct_id, "1234567890");
    assert_eq!(stmttrnrs.stmtrs.bankacctfrom.acct_type, "CHECKING");
}

#[test]
fn test_stmttrnrs_valid_with_trnuid() {
    let input = "\
            <TRNUID>12345-67890\
            <STMTRS>\
                <BANKACCTFROM>\
                    <ACCTID>1234567890\
                    <ACCTTYPE>SAVINGS\
                </BANKACCTFROM>\
                <BANKTRANLIST>\
                    <DTSTART>20250715080000\
                    <DTEND>20250716090000\
                </BANKTRANLIST>\
            </STMTRS>\
            </STMTTRNRS>";
    let mut tokens = tokenize(input);
    let result = Stmttrnrs::parse(&mut tokens);
    assert!(result.is_ok());
    let stmttrnrs = result.unwrap();
    assert_eq!(stmttrnrs.trnuid, Some("12345-67890".to_string()));
    assert!(stmttrnrs.status.is_none());
    assert_eq!(stmttrnrs.stmtrs.bankacctfrom.acct_id, "1234567890");
    assert_eq!(stmttrnrs.stmtrs.bankacctfrom.acct_type, "SAVINGS");
}

#[test]
fn test_stmttrnrs_valid_with_status() {
    let input = "\
            <STATUS>\
                <CODE>0\
                <SEVERITY>INFO\
            </STATUS>\
            <STMTRS>\
                <BANKACCTFROM>\
                    <ACCTID>1234567890\
                    <ACCTTYPE>CHECKING\
                </BANKACCTFROM>\
                <BANKTRANLIST>\
                    <DTSTART>20250715080000\
                    <DTEND>20250716090000\
                </BANKTRANLIST>\
            </STMTRS>\
            </STMTTRNRS>";
    let mut tokens = tokenize(input);
    let result = Stmttrnrs::parse(&mut tokens);
    assert!(result.is_ok());
    let stmttrnrs = result.unwrap();
    assert!(stmttrnrs.trnuid.is_none());
    assert!(stmttrnrs.status.is_some());
    assert_eq!(stmttrnrs.stmtrs.bankacctfrom.acct_id, "1234567890");
    assert_eq!(stmttrnrs.stmtrs.bankacctfrom.acct_type, "CHECKING");
}

#[test]
fn test_stmttrnrs_missing_stmtrs() {
    let input = "\
            <TRNUID>12345-67890\
            </STMTTRNRS>";
    let mut tokens = tokenize(input);
    let result = Stmttrnrs::parse(&mut tokens);
    assert!(result.is_err());
    assert!(matches!(
        result,
        Err(QFXParsingError::MissingRequiredValue(msg)) if msg.contains("STMTRS section is required")
    ));
}

#[test]
fn test_stmttrnrs_unknown_tag() {
    let input = "\
            <UNKNOWNTAG>value\
            <STMTRS>\
                <BANKACCTFROM>\
                    <ACCTID>1234567890\
                    <ACCTTYPE>CHECKING\
                </BANKACCTFROM>\
                <BANKTRANLIST>\
                    <DTSTART>20250715080000\
                    <DTEND>20250716090000\
                </BANKTRANLIST>\
            </STMTRS>\
            </STMTTRNRS>";
    let mut tokens = tokenize(input);
    let result = Stmttrnrs::parse(&mut tokens);
    assert!(result.is_err());
    assert!(matches!(
        result,
        Err(QFXParsingError::UnexpectedToken(msg)) if msg.contains("UNKNOWNTAG") && msg.contains("STMTTRNRS")
    ));
}

#[test]
fn test_stmttrnrs_unexpected_eof_after_trnuid() {
    let input = "<TRNUID>";
    let mut tokens = tokenize(input);
    let result = Stmttrnrs::parse(&mut tokens);
    assert!(result.is_err());
    assert!(matches!(
        result,
        Err(QFXParsingError::UnexpectedEOF(msg)) if msg.contains("Expected a token following the TRNUID token")
    ));
}

#[test]
fn test_stmttrnrs_unexpected_eof_missing_closing_tag() {
    let input = "\
            <TRNUID>12345-67890\
            <STMTRS>\
                <BANKACCTFROM>\
                    <ACCTID>1234567890\
                    <ACCTTYPE>CHECKING\
                </BANKACCTFROM>\
                <BANKTRANLIST>\
                    <DTSTART>20250715080000\
                    <DTEND>20250716090000\
                </BANKTRANLIST>\
            </STMTRS>";
    let mut tokens = tokenize(input);
    let result = Stmttrnrs::parse(&mut tokens);
    assert!(result.is_err());
    assert!(matches!(
        result,
        Err(QFXParsingError::UnexpectedEOF(msg)) if msg.contains("Was still expecting the '/STMTTRNRS' token")
    ));
}

#[test]
fn test_stmtrs_valid_minimal() {
    let input = "\
            <BANKACCTFROM>\
                <ACCTID>1234567890\
                <ACCTTYPE>CHECKING\
            </BANKACCTFROM>\
            <BANKTRANLIST>\
                <DTSTART>20250715080000\
                <DTEND>20250716090000\
            </BANKTRANLIST>\
            </STMTRS>";
    let mut tokens = tokenize(input);
    let result = Stmtrs::parse(&mut tokens);
    assert!(result.is_ok());
    let stmtrs = result.unwrap();
    assert!(stmtrs.currency.is_none());
    assert_eq!(stmtrs.bankacctfrom.acct_id, "1234567890");
    assert_eq!(stmtrs.bankacctfrom.acct_type, "CHECKING");
    assert!(stmtrs.ledgerbal.is_none());
    assert!(stmtrs.availbal.is_none());
}

#[test]
fn test_stmtrs_valid_with_currency() {
    let input = "\
            <CURDEF>USD\
            <BANKACCTFROM>\
                <ACCTID>1234567890\
                <ACCTTYPE>SAVINGS\
            </BANKACCTFROM>\
            <BANKTRANLIST>\
                <DTSTART>20250715080000\
                <DTEND>20250716090000\
            </BANKTRANLIST>\
            </STMTRS>";
    let mut tokens = tokenize(input);
    let result = Stmtrs::parse(&mut tokens);
    assert!(result.is_ok());
    let stmtrs = result.unwrap();
    assert_eq!(stmtrs.currency, Some("USD".to_string()));
    assert_eq!(stmtrs.bankacctfrom.acct_id, "1234567890");
    assert_eq!(stmtrs.bankacctfrom.acct_type, "SAVINGS");
}

#[test]
fn test_stmtrs_valid_with_ledgerbal() {
    let input = "\
            <BANKACCTFROM>\
                <ACCTID>1234567890\
                <ACCTTYPE>CHECKING\
            </BANKACCTFROM>\
            <BANKTRANLIST>\
                <DTSTART>20250715080000\
                <DTEND>20250716090000\
            </BANKTRANLIST>\
            <LEDGERBAL>\
                <BALAMT>1000.00\
                <DTASOF>20250715080000\
            </LEDGERBAL>\
            </STMTRS>";
    let mut tokens = tokenize(input);
    let result = Stmtrs::parse(&mut tokens);
    assert!(result.is_ok());
    let stmtrs = result.unwrap();
    assert!(stmtrs.ledgerbal.is_some());
    assert_eq!(stmtrs.bankacctfrom.acct_id, "1234567890");
}

#[test]
fn test_stmtrs_valid_with_availbal() {
    let input = "\
            <BANKACCTFROM>\
                <ACCTID>1234567890\
                <ACCTTYPE>CHECKING\
            </BANKACCTFROM>\
            <BANKTRANLIST>\
                <DTSTART>20250715080000\
                <DTEND>20250716090000\
            </BANKTRANLIST>\
            <AVAILBAL>\
                <BALAMT>500.00\
                <DTASOF>20250715080000\
            </AVAILBAL>\
            </STMTRS>";
    let mut tokens = tokenize(input);
    let result = Stmtrs::parse(&mut tokens);
    assert!(result.is_ok());
    let stmtrs = result.unwrap();
    assert!(stmtrs.availbal.is_some());
    assert_eq!(stmtrs.bankacctfrom.acct_id, "1234567890");
}

#[test]
fn test_stmtrs_valid_with_bank_id() {
    let input = "\
            <CURDEF>CAD\
            <BANKACCTFROM>\
                <ACCTID>1234567890\
                <ACCTTYPE>SAVINGS\
                <BANKID>123456789\
            </BANKACCTFROM>\
            <BANKTRANLIST>\
                <DTSTART>20250715080000\
                <DTEND>20250716090000\
            </BANKTRANLIST>\
            <LEDGERBAL>\
                <BALAMT>2000.00\
                <DTASOF>20250715080000\
            </LEDGERBAL>\
            <AVAILBAL>\
                <BALAMT>1500.00\
                <DTASOF>20250715080000\
            </AVAILBAL>\
            </STMTRS>";
    let mut tokens = tokenize(input);
    let result = Stmtrs::parse(&mut tokens);
    assert!(result.is_ok());
    let stmtrs = result.unwrap();
    assert_eq!(stmtrs.currency, Some("CAD".to_string()));
    assert_eq!(stmtrs.bankacctfrom.acct_id, "1234567890");
    assert_eq!(stmtrs.bankacctfrom.acct_type, "SAVINGS");
    assert_eq!(stmtrs.bankacctfrom.bank_id, Some("123456789".to_string()));
    assert!(stmtrs.ledgerbal.is_some());
    assert!(stmtrs.availbal.is_some());
}

#[test]
fn test_stmtrs_missing_bankacctfrom() {
    let input = "\
            <BANKTRANLIST>\
                <DTSTART>20250715080000\
                <DTEND>20250716090000\
            </BANKTRANLIST>\
            </STMTRS>";
    let mut tokens = tokenize(input);
    let result = Stmtrs::parse(&mut tokens);
    assert!(result.is_err());
    assert!(matches!(
        result,
        Err(QFXParsingError::MissingRequiredValue(msg)) if msg.contains("BANKACCTFROM is a required value")
    ));
}

#[test]
fn test_stmtrs_missing_banktranlist() {
    let input = "\
            <BANKACCTFROM>\
                <ACCTID>1234567890\
                <ACCTTYPE>CHECKING\
            </BANKACCTFROM>\
            </STMTRS>";
    let mut tokens = tokenize(input);
    let result = Stmtrs::parse(&mut tokens);
    assert!(result.is_err());
    assert!(matches!(
        result,
        Err(QFXParsingError::MissingRequiredValue(msg)) if msg.contains("BANKTRANSLIST is a required value")
    ));
}

#[test]
fn test_stmtrs_unknown_tag() {
    let input = "\
            <UNKNOWNTAG>value\
            <BANKACCTFROM>\
                <ACCTID>1234567890\
                <ACCTTYPE>CHECKING\
            </BANKACCTFROM>\
            <BANKTRANLIST>\
                <DTSTART>20250715080000\
                <DTEND>20250716090000\
            </BANKTRANLIST>\
            </STMTRS>";
    let mut tokens = tokenize(input);
    let result = Stmtrs::parse(&mut tokens);
    assert!(result.is_err());
    assert!(matches!(
        result,
        Err(QFXParsingError::UnexpectedToken(msg)) if msg.contains("UNKNOWNTAG") && msg.contains("STMTRS")
    ));
}

#[test]
fn test_stmtrs_unexpected_eof_after_curdef() {
    let input = "<CURDEF>";
    let mut tokens = tokenize(input);
    let result = Stmtrs::parse(&mut tokens);
    assert!(result.is_err());
    assert!(matches!(
        result,
        Err(QFXParsingError::UnexpectedEOF(msg)) if msg.contains("Expected token following the CURDEF token")
    ));
}

#[test]
fn test_stmtrs_unexpected_eof_missing_closing_tag() {
    let input = "\
            <CURDEF>USD\
            <BANKACCTFROM>\
                <ACCTID>1234567890\
                <ACCTTYPE>CHECKING\
            </BANKACCTFROM>\
            <BANKTRANLIST>\
                <DTSTART>20250715080000\
                <DTEND>20250716090000\
            </BANKTRANLIST>";
    let mut tokens = tokenize(input);
    let result = Stmtrs::parse(&mut tokens);
    assert!(result.is_err());
    assert!(matches!(
        result,
        Err(QFXParsingError::UnexpectedEOF(msg)) if msg.contains("Was still expecting the '/STMTRS'")
    ));
}

#[test]
fn test_bankmsgsrsv1_valid_minimal() {
    let input = "\
            <STMTTRNRS>\
                <STMTRS>\
                    <BANKACCTFROM>\
                        <ACCTID>1234567890\
                        <ACCTTYPE>CHECKING\
                    </BANKACCTFROM>\
                    <BANKTRANLIST>\
                        <DTSTART>20250715080000\
                        <DTEND>20250716090000\
                    </BANKTRANLIST>\
                </STMTRS>\
            </STMTTRNRS>\
            </BANKMSGSRSV1>";
    let mut tokens = tokenize(input);
    let result = BankMsgSrsV1::parse(&mut tokens);
    assert!(result.is_ok());
    let bankmsgsrsv1 = result.unwrap();
    assert!(bankmsgsrsv1.stmttrns.trnuid.is_none());
    assert!(bankmsgsrsv1.stmttrns.status.is_none());
    assert_eq!(
        bankmsgsrsv1.stmttrns.stmtrs.bankacctfrom.acct_id,
        "1234567890"
    );
    assert_eq!(
        bankmsgsrsv1.stmttrns.stmtrs.bankacctfrom.acct_type,
        "CHECKING"
    );
}

#[test]
fn test_bankmsgsrsv1_missing_stmttrnrs() {
    let input = "</BANKMSGSRSV1>";
    let mut tokens = tokenize(input);
    let result = BankMsgSrsV1::parse(&mut tokens);
    assert!(result.is_err());
    assert!(matches!(
        result,
        Err(QFXParsingError::MissingRequiredValue(msg)) if msg.contains("STMTTRNRS is a required value")
    ));
}

#[test]
fn test_bankmsgsrsv1_unknown_tag() {
    let input = "\
            <UNKNOWNTAG>value\
            <STMTTRNRS>\
                <STMTRS>\
                    <BANKACCTFROM>\
                        <ACCTID>1234567890\
                        <ACCTTYPE>CHECKING\
                    </BANKACCTFROM>\
                    <BANKTRANLIST>\
                        <DTSTART>20250715080000\
                        <DTEND>20250716090000\
                    </BANKTRANLIST>\
                </STMTRS>\
            </STMTTRNRS>\
            </BANKMSGSRSV1>";
    let mut tokens = tokenize(input);
    let result = BankMsgSrsV1::parse(&mut tokens);
    assert!(result.is_err());
    assert!(matches!(
        result,
        Err(QFXParsingError::UnexpectedToken(msg)) if msg.contains("UNKNOWNTAG") && msg.contains("BANKMSGSRSV1")
    ));
}

#[test]
fn test_bankmsgsrsv1_unexpected_eof_missing_closing_tag() {
    let input = "\
            <STMTTRNRS>\
                <STMTRS>\
                    <BANKACCTFROM>\
                        <ACCTID>1234567890\
                        <ACCTTYPE>CHECKING\
                    </BANKACCTFROM>\
                    <BANKTRANLIST>\
                        <DTSTART>20250715080000\
                        <DTEND>20250716090000\
                    </BANKTRANLIST>\
                </STMTRS>\
            </STMTTRNRS>";
    let mut tokens = tokenize(input);
    let result = BankMsgSrsV1::parse(&mut tokens);
    assert!(result.is_err());
    assert!(matches!(
        result,
        Err(QFXParsingError::UnexpectedEOF(msg)) if msg.contains("Was still expecting the '/BANKMSGSRSV1' token")
    ));
}
