use qfx::tokenize;
use qfx::FinancialInstitution;
use qfx::QFXParsingError;
use qfx::SignOnMsgSrsV1;
use qfx::Sonrs;
use qfx::UtcDateTime;

#[test]
fn test_financial_institution_valid() {
    let input = "<ORG>Example Bank<FID>1234</FI>";
    let mut tokens = tokenize(input);
    let fi = FinancialInstitution::parse(&mut tokens).unwrap();
    assert_eq!(fi.org, "Example Bank");
    assert_eq!(fi.fid, "1234");
}

#[test]
fn test_financial_institution_missing_org() {
    let input = "<FID>1234</FI>";
    let mut tokens = tokenize(input);
    let result = FinancialInstitution::parse(&mut tokens);
    assert!(matches!(
        result,
        Err(QFXParsingError::MissingRequiredValue(msg)) if msg.contains("Missing ORG in FI")
    ));
}

#[test]
fn test_financial_institution_missing_fid() {
    let input = "<ORG>Example Bank</FI>";
    let mut tokens = tokenize(input);
    let result = FinancialInstitution::parse(&mut tokens);
    assert!(matches!(
        result,
        Err(QFXParsingError::MissingRequiredValue(msg)) if msg.contains("Missing FID in FI")
    ));
}

#[test]
fn test_sonrs_valid_minimal() {
    let input = "\
            <DTSERVER>20250725T143000Z\
            <FI>\
                <ORG>Example Bank\
                <FID>1234\
            </FI>\
            </SONRS>";
    let mut tokens = tokenize(input);
    let sonrs = Sonrs::parse(&mut tokens).unwrap();
    assert_eq!(
        sonrs.dt_server,
        UtcDateTime::from_ymd_hms(2025, 7, 25, 14, 30, 0).unwrap()
    );
    assert_eq!(sonrs.fi.org, "Example Bank");
    assert!(sonrs.status.is_none());
    assert!(sonrs.bid.is_none());
    assert!(sonrs.dt_acctup.is_none());
    assert!(sonrs.language.is_none());
    assert!(sonrs.cookie.is_none());
    assert!(sonrs.user_id.is_none());
}

#[test]
fn test_sonrs_valid_full() {
    let input = "\
            <STATUS>\
                <CODE>0\
                <SEVERITY>INFO\
            </STATUS>\
            <DTSERVER>20250725T143000Z\
            <DTACCTUP>20250724T100000\
            <LANGUAGE>ENG\
            <FI>\
                <ORG>Example Bank\
                <FID>1234\
            </FI>\
            <INTU.BID>5678\
            <INTU.USERID>user1\
            <SESSCOOKIE>cookie-value\
            </SONRS>";
    let mut tokens = tokenize(input);
    let sonrs = Sonrs::parse(&mut tokens).unwrap();
    assert!(sonrs.status.is_some());
    assert_eq!(sonrs.status.unwrap().code, "0");
    assert_eq!(sonrs.bid, Some("5678".to_string()));
    assert_eq!(sonrs.dt_acctup, Some("20250724T100000".to_string()));
    assert_eq!(sonrs.language, Some("ENG".to_string()));
    assert_eq!(sonrs.cookie, Some("cookie-value".to_string()));
    assert_eq!(sonrs.user_id, Some("user1".to_string()));
}

#[test]
fn test_sonrs_missing_dtserver() {
    let input = "\
            <FI>\
                <ORG>Example Bank\
                <FID>1234\
            </FI>\
            </SONRS>";
    let mut tokens = tokenize(input);
    let result = Sonrs::parse(&mut tokens);
    assert!(matches!(
        result,
        Err(QFXParsingError::MissingRequiredValue(msg)) if msg.contains("DTSERVER is required in SONRS")
    ));
}

#[test]
fn test_sonrs_missing_fi() {
    let input = "\
            <DTSERVER>20250725T143000Z\
            </SONRS>";
    let mut tokens = tokenize(input);
    let result = Sonrs::parse(&mut tokens);
    assert!(matches!(
        result,
        Err(QFXParsingError::MissingRequiredValue(msg)) if msg.contains("Financial Institution (FI) is required in SONRS")
    ));
}

#[test]
fn test_sonrs_bad_dtserver() {
    let input = "<DTSERVER>not-a-date</SONRS>";
    let mut tokens = tokenize(input);
    let result = Sonrs::parse(&mut tokens);
    assert!(matches!(
        result,
        Err(QFXParsingError::UnexpectedDateFormat(msg)) if msg.contains("DTSERVER")
    ));
}

#[test]
fn test_sign_on_msg_valid_minimal() {
    let input = "\
            <SONRS>\
                <DTSERVER>20250725T143000Z\
                <FI>\
                    <ORG>Example Bank\
                    <FID>1234\
                </FI>\
            </SONRS>\
            </SIGNONMSGSRSV1>";
    let mut tokens = tokenize(input);
    let result = SignOnMsgSrsV1::parse(&mut tokens);
    assert!(result.is_ok());
    assert_eq!(result.unwrap().sonrs.fi.fid, "1234");
}

#[test]
fn test_sign_on_msg_missing_sonrs() {
    let input = "</SIGNONMSGSRSV1>";
    let mut tokens = tokenize(input);
    let result = SignOnMsgSrsV1::parse(&mut tokens);
    assert!(matches!(
        result,
        Err(QFXParsingError::MissingRequiredValue(msg)) if msg.contains("Missing value SONRS in SIGNONMSGSRSV1")
    ));
}
