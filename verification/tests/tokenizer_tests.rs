use qfx::remove_last_bracketed;
use qfx::tokenize;

fn collect(input: &str) -> Vec<String> {
    let mut tokens = tokenize(input);
    let mut out = Vec::new();
    while let Some(t) = tokens.next() {
        out.push(t);
    }
    out
}

#[test]
fn test_tokenize_splits_on_angle_brackets() {
    assert_eq!(collect("<OFX></OFX>"), vec!["OFX", "/OFX"]);
    assert_eq!(
        collect("<CODE>200<SEVERITY>INFO"),
        vec!["CODE", "200", "SEVERITY", "INFO"]
    );
}

#[test]
fn test_tokenize_trims_whitespace_and_drops_empties() {
    assert_eq!(
        collect("  <ACCTID>  1234567890 \n </CCACCTFROM>  "),
        vec!["ACCTID", "1234567890", "/CCACCTFROM"]
    );
    assert_eq!(collect("   "), Vec::<String>::new());
    assert_eq!(collect(""), Vec::<String>::new());
    assert_eq!(collect("<>< >"), Vec::<String>::new());
}

#[test]
fn test_tokenize_keeps_inner_whitespace() {
    assert_eq!(
        collect("<NAME>Test Transaction"),
        vec!["NAME", "Test Transaction"]
    );
}

#[test]
fn test_remove_last_bracketed() {
    assert_eq!(remove_last_bracketed("helloworld[xxxx]"), "helloworld");
    assert_eq!(remove_last_bracketed("20250725143000[+7:PDT]"), "20250725143000");
    assert_eq!(remove_last_bracketed("no brackets"), "no brackets");
    assert_eq!(remove_last_bracketed("a[b]c[d]"), "a[b]c");
    assert_eq!(remove_last_bracketed("dangling["), "dangling");
    assert_eq!(remove_last_bracketed(""), "");
}
