use flylang::flylang::FlyLang;

const SCRIPTS_LABEL: Option<&str> = Some("tests-global");

#[test]
fn parser_with_raw_works() {
    FlyLang::anonymous_parser(r#""#, SCRIPTS_LABEL).unwrap();
}
