use flylang::flylang::lexer::tokens::representations::number::{
    NumberRepresentation, NumberRepresentationBases,
};
use flylang::flylang::parser::ast::expressions::literals::ParsedLiterals;
use flylang::flylang::parser::ast::expressions::Expressions;
use flylang::flylang::parser::ast::instructions::Instructions;
use flylang::flylang::parser::ast::Node;
use flylang::flylang::FlyLang;

const SCRIPTS_LABEL: Option<&str> = Some("tests-literals");

fn parse(script: &str) -> Vec<Node<Instructions>> {
    FlyLang::anonymous_parser(script, SCRIPTS_LABEL)
        .unwrap()
        .program()
        .unwrap()
}

fn value(number: NumberRepresentation) -> f64 {
    let mut num = number.integer as f64;
    if let Some(dec) = number.decimal {
        num += (dec as f64) / 10f64.powf(number.decimal_length as f64);
    }
    if number.negative {
        num *= -1f64;
    }
    num
}

#[test]
fn true_value() {
    let parsed = parse(r#"true"#);

    assert_eq!(parsed.len(), 1);
    assert!(matches!(
        parsed[0].kind(),
        Instructions::ValueOf(Expressions::Literal(ParsedLiterals::True))
    ));
}

#[test]
fn false_value() {
    let parsed = parse(r#"false"#);

    assert_eq!(parsed.len(), 1);
    assert!(matches!(
        parsed[0].kind(),
        Instructions::ValueOf(Expressions::Literal(ParsedLiterals::False))
    ));
}

#[test]
fn empty_value() {
    let parsed = parse(r#"()"#);

    assert_eq!(parsed.len(), 1);
    assert!(matches!(
        parsed[0].kind(),
        Instructions::ValueOf(Expressions::Literal(ParsedLiterals::Empty))
    ));
}

#[test]
fn word_value() {
    let parsed = parse(r#"hello"#);

    assert_eq!(parsed.len(), 1);
    assert!(matches!(
        parsed[0].kind(),
        Instructions::ValueOf(Expressions::Literal(ParsedLiterals::Word))
    ));
}

#[test]
fn number_integer() {
    let parsed = parse(r#"10_1568"#);

    assert_eq!(parsed.len(), 1);
    assert!(matches!(
        parsed[0].kind(),
        Instructions::ValueOf(Expressions::Literal(ParsedLiterals::Number))
    ));

    let num: f64 = value(NumberRepresentation::from(parsed[0].location()).unwrap());
    assert_eq!(num, 101568f64);
}

#[test]
fn number_neg_integer() {
    let parsed = parse(r#"-68"#);

    assert_eq!(parsed.len(), 1);
    assert!(matches!(
        parsed[0].kind(),
        Instructions::ValueOf(Expressions::Literal(ParsedLiterals::Number))
    ));

    let num: f64 = value(NumberRepresentation::from(parsed[0].location()).unwrap());
    assert_eq!(num, -68f64);
}

#[test]
fn number_float() {
    let parsed = parse(r#".15_8"#);

    assert_eq!(parsed.len(), 1);
    assert!(matches!(
        parsed[0].kind(),
        Instructions::ValueOf(Expressions::Literal(ParsedLiterals::Number))
    ));

    let num: f64 = value(NumberRepresentation::from(parsed[0].location()).unwrap());
    assert_eq!(num, 0.158f64);
}

#[test]
fn number_neg_float() {
    let parsed = parse(r#"-.9874"#);

    assert_eq!(parsed.len(), 1);
    assert!(matches!(
        parsed[0].kind(),
        Instructions::ValueOf(Expressions::Literal(ParsedLiterals::Number))
    ));

    let num: f64 = value(NumberRepresentation::from(parsed[0].location()).unwrap());
    assert_eq!(num, -0.9874f64);
}

#[test]
fn number_bin() {
    let parsed = parse(r#"0b10110"#);

    assert_eq!(parsed.len(), 1);
    assert!(matches!(
        parsed[0].kind(),
        Instructions::ValueOf(Expressions::Literal(ParsedLiterals::Number))
    ));

    let number = NumberRepresentation::from(parsed[0].location()).unwrap();
    assert!(matches!(
        number.represented_as,
        NumberRepresentationBases::Binary
    ));

    let value: f64 = value(number);
    assert_eq!(value, 22f64);
}

#[test]
fn number_bin_neg() {
    let parsed = parse(r#"-0b110"#);

    assert_eq!(parsed.len(), 1);
    assert!(matches!(
        parsed[0].kind(),
        Instructions::ValueOf(Expressions::Literal(ParsedLiterals::Number))
    ));

    let value: f64 = value(NumberRepresentation::from(parsed[0].location()).unwrap());
    assert_eq!(value, -6f64);
}

#[test]
#[should_panic]
fn number_bin_invalid_char() {
    parse(r#"0b2"#);
    parse(r#"0bf"#);
    parse(r#"0b5"#);
}

#[test]
#[should_panic]
fn number_bin_decimal_disallowed() {
    let parsed = parse(r#"0b101.101"#);

    assert_eq!(parsed.len(), 1);
    assert!(matches!(
        parsed[0].kind(),
        Instructions::ValueOf(Expressions::Literal(ParsedLiterals::Number))
    ));
}

#[test]
fn number_hex() {
    let parsed = parse(r#"0x5FaDef"#);

    assert_eq!(parsed.len(), 1);
    assert!(matches!(
        parsed[0].kind(),
        Instructions::ValueOf(Expressions::Literal(ParsedLiterals::Number))
    ));

    let number = NumberRepresentation::from(parsed[0].location()).unwrap();
    assert!(matches!(
        number.represented_as,
        NumberRepresentationBases::Hexadecimal
    ));

    let value: f64 = value(number);
    assert_eq!(value, 6270447f64);
}

#[test]
#[should_panic]
fn number_hex_invalid_char() {
    parse(r#"0bGu"#);
    parse(r#"0b5n"#);
}

#[test]
#[should_panic]
fn number_hex_decimal_disallowed() {
    let parsed = parse(r#"0xeff.a55"#);

    assert_eq!(parsed.len(), 1);
    assert!(matches!(
        parsed[0].kind(),
        Instructions::ValueOf(Expressions::Literal(ParsedLiterals::Number))
    ));
}
