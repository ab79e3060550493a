use llm_cli::bias::{ParseError, ParseErrorKind, TokenBias};
use llm_cli::decimal::Decimal;

fn entries(table: &TokenBias) -> Vec<(u32, String)> {
    let mut out = Vec::new();
    let mut at = 0;
    while let Some((id, bias)) = table.entry(at) {
        out.push((id, bias.as_str().to_string()));
        at += 1;
    }
    out
}

fn error(text: &str) -> ParseError {
    match TokenBias::parse(text) {
        Ok(_) => panic!("{} was accepted", text),
        Err(error) => error,
    }
}

#[test]
fn empty_text_is_the_empty_table() {
    let table = TokenBias::parse("").unwrap();
    assert_eq!(table.len(), 0);
    assert!(table.get(1).is_none());
    assert_eq!(table.to_text(), "");
}

#[test]
fn one_entry_maps_token_one_to_minus_one() {
    let table = TokenBias::parse("1=-1.0").unwrap();
    assert_eq!(table.len(), 1);
    let bias = table.get(1).unwrap();
    assert_eq!(bias.as_str(), "-1.0");
    let value: f32 = bias.as_str().parse().unwrap();
    assert_eq!(value, -1.0);
    assert!(table.get(0).is_none());
    assert!(table.get(2).is_none());
}

#[test]
fn two_entries_are_both_kept() {
    let table = TokenBias::parse("1=-1.0,2=-1.0").unwrap();
    assert_eq!(entries(&table), vec![(1, "-1.0".to_string()), (2, "-1.0".to_string())]);
}

#[test]
fn the_last_of_two_entries_for_one_token_stays() {
    let table = TokenBias::parse("1=0.5,2=1,1=-2").unwrap();
    assert_eq!(table.len(), 2);
    assert_eq!(table.get(1).unwrap().as_str(), "-2");
    assert_eq!(table.get(2).unwrap().as_str(), "1");
}

#[test]
fn text_of_a_table_lists_tokens_in_rising_order() {
    let table = TokenBias::parse("20=1,3=0.5,100=-7e2").unwrap();
    assert_eq!(table.to_text(), "3=0.5,20=1,100=-7e2");
}

#[test]
fn reading_the_text_of_a_table_gives_the_table_back() {
    let table = TokenBias::parse("7=1.5,2=-3,7=0.25,4294967295=+1E-3,0=.5").unwrap();
    let text = table.to_text();
    assert_eq!(text, "0=.5,2=-3,7=0.25,4294967295=+1E-3");
    let again = TokenBias::parse(&text).unwrap();
    assert_eq!(entries(&again), entries(&table));
    assert_eq!(again.to_text(), text);
}

#[test]
fn leading_zeros_of_a_token_are_dropped_in_the_text() {
    let table = TokenBias::parse("007=1").unwrap();
    assert_eq!(table.get(7).unwrap().as_str(), "1");
    assert_eq!(table.to_text(), "7=1");
}

#[test]
fn a_segment_without_equals_is_named() {
    assert_eq!(error("abc"), ParseError { segment: 0, kind: ParseErrorKind::MissingEquals });
    assert_eq!(error("1=2,3"), ParseError { segment: 1, kind: ParseErrorKind::MissingEquals });
    assert_eq!(error("1=2,"), ParseError { segment: 1, kind: ParseErrorKind::MissingEquals });
    assert_eq!(error(","), ParseError { segment: 0, kind: ParseErrorKind::MissingEquals });
}

#[test]
fn a_wrong_token_is_named() {
    assert_eq!(error("x=1"), ParseError { segment: 0, kind: ParseErrorKind::InvalidTokenId });
    assert_eq!(error("1=2,x=3,4"), ParseError { segment: 1, kind: ParseErrorKind::InvalidTokenId });
    assert_eq!(error("=1"), ParseError { segment: 0, kind: ParseErrorKind::InvalidTokenId });
    assert_eq!(error("-1=1"), ParseError { segment: 0, kind: ParseErrorKind::InvalidTokenId });
    assert_eq!(error("+1=1"), ParseError { segment: 0, kind: ParseErrorKind::InvalidTokenId });
    assert_eq!(error(" 1=1"), ParseError { segment: 0, kind: ParseErrorKind::InvalidTokenId });
    assert_eq!(error("1.0=1"), ParseError { segment: 0, kind: ParseErrorKind::InvalidTokenId });
}

#[test]
fn a_token_beyond_the_range_is_wrong() {
    assert!(TokenBias::parse("4294967295=1").is_ok());
    assert_eq!(
        error("4294967296=1"),
        ParseError { segment: 0, kind: ParseErrorKind::InvalidTokenId }
    );
    assert_eq!(
        error("99999999999999999999999999999999=1"),
        ParseError { segment: 0, kind: ParseErrorKind::InvalidTokenId }
    );
}

#[test]
fn a_wrong_bias_is_named() {
    assert_eq!(error("1="), ParseError { segment: 0, kind: ParseErrorKind::InvalidBias });
    assert_eq!(error("1=x"), ParseError { segment: 0, kind: ParseErrorKind::InvalidBias });
    assert_eq!(error("1=2,3=."), ParseError { segment: 1, kind: ParseErrorKind::InvalidBias });
    assert_eq!(error("1=1e"), ParseError { segment: 0, kind: ParseErrorKind::InvalidBias });
    assert_eq!(error("1=1.2.3"), ParseError { segment: 0, kind: ParseErrorKind::InvalidBias });
    assert_eq!(error("1=inf"), ParseError { segment: 0, kind: ParseErrorKind::InvalidBias });
    assert_eq!(error("1= 2"), ParseError { segment: 0, kind: ParseErrorKind::InvalidBias });
    assert_eq!(error("1=2=3"), ParseError { segment: 0, kind: ParseErrorKind::InvalidBias });
}

#[test]
fn the_first_wrong_segment_is_the_one_reported() {
    assert_eq!(error("1=x,y"), ParseError { segment: 0, kind: ParseErrorKind::InvalidBias });
    assert_eq!(error("1=1,2=2,z=3,4"), ParseError { segment: 2, kind: ParseErrorKind::InvalidTokenId });
}

#[test]
fn scientific_notation_is_a_bias() {
    let table = TokenBias::parse("1=1e5,2=-2.5E-3,3=+.5e+1,4=5.").unwrap();
    assert_eq!(table.get(1).unwrap().as_str().parse::<f32>().unwrap(), 1e5);
    assert_eq!(table.get(2).unwrap().as_str().parse::<f32>().unwrap(), -2.5e-3);
    assert_eq!(table.get(3).unwrap().as_str().parse::<f32>().unwrap(), 5.0);
    assert_eq!(table.get(4).unwrap().as_str().parse::<f32>().unwrap(), 5.0);
}

#[test]
fn a_table_from_pairs_keeps_the_later_pair() {
    let pairs = vec![
        (5, Decimal::parse("1.0").unwrap()),
        (2, Decimal::parse("2.0").unwrap()),
        (5, Decimal::parse("3.0").unwrap()),
    ];
    let table = TokenBias::new(pairs);
    assert_eq!(entries(&table), vec![(2, "2.0".to_string()), (5, "3.0".to_string())]);
}

#[test]
fn a_table_from_no_pairs_is_empty() {
    let table = TokenBias::new(Vec::new());
    assert_eq!(table.len(), 0);
    assert_eq!(TokenBias::default().len(), 0);
    assert_eq!(TokenBias::empty().len(), 0);
}

#[test]
fn the_suppressing_table_has_one_entry() {
    let table = TokenBias::suppressing(2);
    assert_eq!(entries(&table), vec![(2, "-1.0".to_string())]);
    assert_eq!(table.get(2).unwrap().as_str().parse::<f32>().unwrap(), -1.0);
    assert_eq!(table.to_text(), "2=-1.0");
}

#[test]
fn set_replaces_and_inserts() {
    let mut table = TokenBias::empty();
    table.set(9, Decimal::parse("1").unwrap());
    table.set(3, Decimal::parse("2").unwrap());
    table.set(9, Decimal::parse("3").unwrap());
    table.set(5, Decimal::parse("4").unwrap());
    assert_eq!(
        entries(&table),
        vec![(3, "2".to_string()), (5, "4".to_string()), (9, "3".to_string())]
    );
    let copy = table.clone();
    assert_eq!(entries(&copy), entries(&table));
}

#[test]
fn decimals_are_told_from_other_text() {
    for text in ["0", "-1.0", "+1.0", ".5", "5.", "1e10", "1E-10", "-0.25e+3", "007"] {
        let literal = Decimal::parse(text).unwrap();
        assert_eq!(literal.as_str(), text);
        assert!(text.parse::<f32>().is_ok());
    }
    for text in ["", ".", "-", "+", "e5", "1e", "1e+", "1.2.3", "--1", "1 ", " 1", "nan", "inf", "1,0", "1f", "0x10"] {
        assert!(Decimal::parse(text).is_none(), "{} was accepted", text);
    }
}

#[test]
fn minus_one_is_minus_one() {
    let literal = Decimal::minus_one();
    assert_eq!(literal.as_str(), "-1.0");
    assert_eq!(literal.clone().as_str(), "-1.0");
    let chars: Vec<char> = "2.5".chars().collect();
    assert_eq!(Decimal::from_chars(&chars).unwrap().as_str(), "2.5");
    assert!(Decimal::from_chars(&[]).is_none());
}
