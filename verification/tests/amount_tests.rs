use qfx::parse_amount;
use qfx::Amount;

#[test]
fn test_amount_parse_negative_decimal() {
    // "-100.51" is minus one hundred and 51 hundredths.
    let a = parse_amount("-100.51").unwrap();
    assert_eq!(a, Amount { negative: true, units: 100, frac: vec![5, 1] });
}

#[test]
fn test_amount_parse_rejects_malformed() {
    // A sign in the middle of the digits is not a decimal number.
    assert!(parse_amount("100123456-7891").is_none());
    assert!(parse_amount("").is_none());
    assert!(parse_amount("-").is_none());
    assert!(parse_amount(".").is_none());
    assert!(parse_amount("1.2.3").is_none());
    assert!(parse_amount("12a").is_none());
    assert!(parse_amount("1e5").is_none());
}

#[test]
fn test_amount_parse_plain_forms() {
    assert_eq!(
        parse_amount("200.00").unwrap(),
        Amount { negative: false, units: 200, frac: vec![] }
    );
    assert_eq!(
        parse_amount("+3.5").unwrap(),
        Amount { negative: false, units: 3, frac: vec![5] }
    );
    assert_eq!(
        parse_amount(".25").unwrap(),
        Amount { negative: false, units: 0, frac: vec![2, 5] }
    );
    assert_eq!(
        parse_amount("7.").unwrap(),
        Amount { negative: false, units: 7, frac: vec![] }
    );
}

#[test]
fn test_amount_parse_canonicalizes() {
    // Trailing zero fraction digits are dropped and zero is never negative,
    // so equal numbers compare equal.
    assert_eq!(parse_amount("100.510").unwrap(), parse_amount("100.51").unwrap());
    assert_eq!(parse_amount("-0.00").unwrap(), parse_amount("0").unwrap());
    assert_eq!(parse_amount("007").unwrap(), parse_amount("7").unwrap());
}

#[test]
fn test_amount_parse_rejects_unrepresentable() {
    // An integer part beyond the representable range is rejected.
    assert!(parse_amount("18446744073709551615").is_some());
    assert!(parse_amount("18446744073709551616").is_none());
    assert!(parse_amount("99999999999999999999999999").is_none());
}
