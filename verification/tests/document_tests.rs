use qfx::decode;
use qfx::Amount;
use qfx::QFXParsingError;
use qfx::UtcDateTime;

const SIGN_ON: &str = "\
    <SIGNONMSGSRSV1>\
        <SONRS>\
            <STATUS>\
                <CODE>0\
                <SEVERITY>INFO\
            </STATUS>\
            <DTSERVER>20250725T143000Z\
            <LANGUAGE>ENG\
            <FI>\
                <ORG>Example Bank\
                <FID>1234\
            </FI>\
        </SONRS>\
    </SIGNONMSGSRSV1>";

const BANK_SECTION: &str = "\
    <BANKMSGSRSV1>\
        <STMTTRNRS>\
            <TRNUID>1\
            <STMTRS>\
                <CURDEF>USD\
                <BANKACCTFROM>\
                    <ACCTID>1234567890\
                    <ACCTTYPE>CHECKING\
                </BANKACCTFROM>\
                <BANKTRANLIST>\
                    <DTSTART>20250701T000000Z\
                    <DTEND>20250731T000000Z\
                    <STMTTRN>\
                        <TRNTYPE>DEBIT\
                        <DTPOSTED>20250715080000\
                        <TRNAMT>-55.75\
                        <FITID>TXN123456\
                        <CHECKNUM>1005\
                        <NAME>GROCERY STORE\
                        <MEMO>Weekly groceries\
                    </STMTTRN>\
                    <STMTTRN>\
                        <TRNTYPE>CREDIT\
                        <DTPOSTED>20250716090000\
                        <TRNAMT>1000.00\
                        <FITID>TXN123457\
                        <NAME>PAYROLL\
                        <MEMO>DIRECT DEPOSIT\
                    </STMTTRN>\
                </BANKTRANLIST>\
                <LEDGERBAL>\
                    <BALAMT>2500.00\
                    <DTASOF>20250725143000\
                </LEDGERBAL>\
            </STMTRS>\
        </STMTTRNRS>\
    </BANKMSGSRSV1>";

const CC_SECTION: &str = "\
    <CREDITCARDMSGSRSV1>\
        <CCSTMTTRNRS>\
            <CCSTMTRS>\
                <CURDEF>USD\
                <CCACCTFROM>\
                    <ACCTID>9876543210\
                </CCACCTFROM>\
                <BANKTRANLIST>\
                    <DTSTART>20250701T000000Z\
                    <DTEND>20250731T000000Z\
                    <STMTTRN>\
                        <TRNTYPE>DEBIT\
                        <DTPOSTED>20250715080000\
                        <TRNAMT>-55.75\
                        <FITID>TXN123456\
                        <NAME>CASH BACK\
                        <MEMO>Weekly groceries\
                    </STMTTRN>\
                    <STMTTRN>\
                        <TRNTYPE>CREDIT\
                        <DTPOSTED>20250716090000\
                        <TRNAMT>1000.00\
                        <FITID>TXN123457\
                        <NAME>PAYROLL\
                        <MEMO>DIRECT DEPOSIT\
                    </STMTTRN>\
                </BANKTRANLIST>\
            </CCSTMTRS>\
        </CCSTMTTRNRS>\
    </CREDITCARDMSGSRSV1>";

fn full_document() -> String {
    format!("<OFX>{}{}{}</OFX>", SIGN_ON, BANK_SECTION, CC_SECTION)
}

#[test]
fn test_decode_full_document() {
    let text = full_document();
    let result = decode(&text);
    assert!(
        result.is_ok(),
        "Expected decode to succeed, got error: {:?}",
        result.err()
    );
    let qfx = result.unwrap();
    assert!(qfx.sign_on_msg_srs_v1.is_some());

    let bank_transactions = qfx
        .bank_msg_srs_v1
        .unwrap()
        .stmttrns
        .stmtrs
        .banktranslist
        .transactions;
    assert_eq!(bank_transactions.len(), 2);

    let t0 = &bank_transactions[0];
    assert_eq!(t0.trans_type, "DEBIT");
    assert_eq!(
        t0.dt_posted,
        UtcDateTime::from_ymd_hms(2025, 7, 15, 8, 0, 0).unwrap()
    );
    assert_eq!(
        t0.trans_amount,
        Amount { negative: true, units: 55, frac: vec![7, 5] }
    );
    assert_eq!(t0.fit_id, "TXN123456");
    assert_eq!(t0.check_num, Some("1005".to_string()));
    assert_eq!(t0.name, "GROCERY STORE");
    assert_eq!(t0.memo, Some("Weekly groceries".to_string()));

    let t1 = &bank_transactions[1];
    assert_eq!(t1.trans_type, "CREDIT");
    assert_eq!(
        t1.dt_posted,
        UtcDateTime::from_ymd_hms(2025, 7, 16, 9, 0, 0).unwrap()
    );
    assert_eq!(
        t1.trans_amount,
        Amount { negative: false, units: 1000, frac: vec![] }
    );
    assert_eq!(t1.fit_id, "TXN123457");
    assert_eq!(t1.check_num, None);
    assert_eq!(t1.name, "PAYROLL");
    assert_eq!(t1.memo, Some("DIRECT DEPOSIT".to_string()));

    let cc = qfx.credit_card_msg_srs_v1.unwrap();
    assert_eq!(cc.ccstmttrns.ccstmtrs.ccacctfrom.acct_id, "9876543210");
    let cc_transactions = cc.ccstmttrns.ccstmtrs.banktranslist.transactions;
    assert_eq!(cc_transactions.len(), 2);
    assert_eq!(cc_transactions[0].name, "CASH BACK");
    assert_eq!(cc_transactions[0].check_num, None);
    assert_eq!(cc_transactions[1].name, "PAYROLL");
}

#[test]
fn test_decode_document_no_transactions() {
    let text = "\
        <OFX>\
        <BANKMSGSRSV1>\
            <STMTTRNRS>\
                <STMTRS>\
                    <BANKACCTFROM>\
                        <ACCTID>1234567890\
                        <ACCTTYPE>CHECKING\
                    </BANKACCTFROM>\
                    <BANKTRANLIST>\
                        <DTSTART>20250701T000000Z\
                        <DTEND>20250731T000000Z\
                    </BANKTRANLIST>\
                </STMTRS>\
            </STMTTRNRS>\
        </BANKMSGSRSV1>\
        </OFX>";
    let qfx = decode(text).unwrap();
    let bank_transactions = qfx
        .bank_msg_srs_v1
        .unwrap()
        .stmttrns
        .stmtrs
        .banktranslist
        .transactions;
    assert_eq!(bank_transactions.len(), 0);
    assert!(qfx.credit_card_msg_srs_v1.is_none());
}

#[test]
fn test_end_to_end_bank_only() {
    // An envelope with one bank-message section holding two transactions and
    // no credit-card section: bank section populated, credit-card section
    // absent, and two transactions in source order.
    let text = format!("<OFX>{}</OFX>", BANK_SECTION);
    let qfx = decode(&text).unwrap();
    assert!(qfx.sign_on_msg_srs_v1.is_none());
    assert!(qfx.credit_card_msg_srs_v1.is_none());
    let bank = qfx.bank_msg_srs_v1.expect("bank section must be present");
    let transactions = &bank.stmttrns.stmtrs.banktranslist.transactions;
    assert_eq!(transactions.len(), 2);
    assert_eq!(transactions[0].fit_id, "TXN123456");
    assert_eq!(transactions[1].fit_id, "TXN123457");
}

#[test]
fn test_decode_idempotent() {
    // Decoding the same input text twice yields structurally equal results.
    let text = full_document();
    let first = decode(&text);
    let second = decode(&text);
    assert_eq!(first, second);
    let truncated = &text[..text.len() - 7];
    assert_eq!(decode(truncated), decode(truncated));
}

#[test]
fn test_decode_empty_input() {
    let result = decode("");
    assert!(matches!(
        result,
        Err(QFXParsingError::UnexpectedEOF(msg)) if msg.contains("Was still expecting the OFX token")
    ));
}

#[test]
fn test_decode_wrong_first_token() {
    let result = decode("<FOO></FOO>");
    assert!(matches!(
        result,
        Err(QFXParsingError::UnexpectedToken(msg)) if msg.contains("Expecting: OFX") && msg.contains("FOO")
    ));
}

#[test]
fn test_decode_missing_envelope_terminator() {
    let text = format!("<OFX>{}", BANK_SECTION);
    let result = decode(&text);
    assert!(matches!(
        result,
        Err(QFXParsingError::UnexpectedEOF(msg)) if msg.contains("Was still expecting the '/OFX' token")
    ));
}

#[test]
fn test_decode_repeated_sign_on_section_rejected() {
    let text = format!("<OFX>{}{}</OFX>", SIGN_ON, SIGN_ON);
    let result = decode(&text);
    assert!(matches!(
        result,
        Err(QFXParsingError::UnexpectedToken(msg)) if msg.contains("sign on message srs v1 is already set")
    ));
}

#[test]
fn test_decode_repeated_bank_section_rejected() {
    let text = format!("<OFX>{}{}</OFX>", BANK_SECTION, BANK_SECTION);
    let result = decode(&text);
    assert!(matches!(
        result,
        Err(QFXParsingError::UnexpectedToken(msg)) if msg.contains("bank message srs v1 is already set")
    ));
}

#[test]
fn test_decode_repeated_credit_card_section_overwrites() {
    // The credit-card section is the one top-level section whose repetition
    // is not rejected: the second occurrence replaces the first.
    let second = CC_SECTION.replace("9876543210", "1111222233");
    let text = format!("<OFX>{}{}</OFX>", CC_SECTION, second);
    let qfx = decode(&text).unwrap();
    let cc = qfx.credit_card_msg_srs_v1.unwrap();
    assert_eq!(cc.ccstmttrns.ccstmtrs.ccacctfrom.acct_id, "1111222233");
}

#[test]
fn test_decode_unknown_top_level_tag() {
    let result = decode("<OFX><NOTASECTION></OFX>");
    assert!(matches!(
        result,
        Err(QFXParsingError::UnexpectedToken(msg)) if msg.contains("in the OFX tag") && msg.contains("NOTASECTION")
    ));
}

#[test]
fn test_decode_ignores_trailing_content() {
    let text = format!("<OFX>{}</OFX><TRAILING>junk", BANK_SECTION);
    let qfx = decode(&text).unwrap();
    assert!(qfx.bank_msg_srs_v1.is_some());
}
