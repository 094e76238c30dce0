use flylang::flylang::errors::LangError;
use flylang::flylang::lexer::tokens::{
    duplicate_parts, duplicate_tokens, Literals, Operator, StringItem, Token, Tokens,
    VarDefinition,
};
use flylang::flylang::lexer::Lexer;
use flylang::flylang::parser::Parser;
use flylang::flylang::FlyLang;

fn lexify(script: &str) -> Result<Vec<Token<Tokens>>, LangError> {
    let mut lexer = FlyLang::anonymous_lexer(script, Some("tests-lexer"));
    let tokens = lexer.lexify()?;
    Ok(duplicate_tokens(tokens))
}

fn shown(token: &Token<Tokens>) -> String {
    let range = token.location.range();
    let kind = match &token.kind {
        Tokens::Literal(Literals::String(parts)) => format!(
            "String[{}]",
            parts
                .iter()
                .map(|part| {
                    let range = part.location.range();
                    match &part.kind {
                        StringItem::Literal(text) => {
                            format!("{:?}@{}..{}", text, range.start, range.end)
                        }
                        StringItem::Expression(tokens) => {
                            format!("({})@{}..{}", list(tokens), range.start, range.end)
                        }
                    }
                })
                .collect::<Vec<_>>()
                .join(" ")
        ),
        Tokens::VarDef(VarDefinition::WithOperation(operator)) => {
            let range = operator.location.range();
            format!(
                "WithOperation({:?}@{}..{})",
                operator.kind, range.start, range.end
            )
        }
        other => format!("{:?}", other),
    };
    format!("{}@{}..{}", kind, range.start, range.end)
}

fn list(tokens: &[Token<Tokens>]) -> String {
    tokens.iter().map(shown).collect::<Vec<_>>().join(" ")
}

fn tokens(script: &str) -> String {
    match lexify(script) {
        Ok(tokens) => list(&tokens),
        Err(error) => match error {
            LangError::UnknownCharacter(_) => "UnknownCharacter",
            LangError::UnexpectedCharacter(_) => "UnexpectedCharacter",
            LangError::InvalidScopeEnding(_) => "InvalidScopeEnding",
            LangError::UnclosedScope(_) => "UnclosedScope",
            LangError::Expected(_) => "Expected",
            _ => "another",
        }
        .to_string(),
    }
}

const TOKENS: &[(&str, &str)] = &[
    ("", ""),
    (" \t\r\n", ""),
    ("!", "Not@0..1"),
    ("( ) { }", "Block(Openning)@0..1 Block(Closing)@2..3 Object(Openning)@4..5 Object(Closing)@6..7"),
    ("+ * ** / // %", "Operator(Add)@0..1 Operator(Multiply)@2..3 Operator(Power)@4..6 Operator(Divide)@7..8 Operator(EuclidianDivision)@9..11 Operator(Modulo)@12..13"),
    ("***", "Operator(Power)@0..2 Operator(Multiply)@2..3"),
    ("///", "Operator(EuclidianDivision)@0..2 Operator(Divide)@2..3"),
    ("& ? ~", "BinaryOperator(And)@0..1 BinaryOperator(Or)@2..3 BinaryOperator(Xor)@4..5"),
    ("= < > <= >=", "Comparison(Equal)@0..1 Comparison(Less(true))@2..3 Comparison(Greater(true))@4..5 Comparison(Less(false))@6..8 Comparison(Greater(false))@9..11"),
    ("==", "Comparison(Equal)@0..1 Comparison(Equal)@1..2"),
    ("a.b", "Literal(Word)@0..1 Accessor@1..2 Literal(Word)@2..3"),
    ("a - b", "Literal(Word)@0..1 Operator(Substract)@2..3 Literal(Word)@4..5"),
    (", # ;", "ArgSeparator@0..1 Modifier@2..3 EndOfInstruction@4..5"),
    (";;; ;", "EndOfInstruction@0..1"),
    ("a;;b;", "Literal(Word)@0..1 EndOfInstruction@1..2 Literal(Word)@3..4 EndOfInstruction@4..5"),
    (": ::", "VarDef(Normal)@0..1 VarDef(Constant)@2..4"),
    (":::", "VarDef(Constant)@0..2 VarDef(Normal)@2..3"),
    ("a +: 1", "Literal(Word)@0..1 WithOperation(Add@2..3)@2..4 Literal(Number)@5..6"),
    ("a ** : 1", "Literal(Word)@0..1 WithOperation(Power@2..4)@2..6 Literal(Number)@7..8"),
    ("a -: 1", "Literal(Word)@0..1 WithOperation(Substract@2..3)@2..4 Literal(Number)@5..6"),
    ("@a @<< @12 @if @true", "ScopeTarget(Named(\"a\"))@0..2 ScopeTarget(Numbered(2))@3..6 ScopeTarget(Numbered(12))@7..10 ScopeTarget(Named(\"if\"))@11..14 ScopeTarget(Named(\"true\"))@15..20"),
    ("fn cs kind new while until each return stop pass if else true false use in from", "Keyword(Fn)@0..2 Keyword(Cs)@3..5 Keyword(Kind)@6..10 Keyword(New)@11..14 Keyword(While)@15..20 Keyword(Until)@21..26 Keyword(Each)@27..31 Keyword(Return)@32..38 Keyword(Stop)@39..43 Keyword(Pass)@44..48 Keyword(If)@49..51 Keyword(Else)@52..56 Literal(True)@57..61 Literal(False)@62..67 Keyword(Use)@68..71 Keyword(In)@72..74 Keyword(From)@75..79"),
    ("fns _a a1 If é1", "Literal(Word)@0..3 Literal(Word)@4..6 Literal(Word)@7..9 Literal(Word)@10..12 Literal(Word)@13..15"),
    ("12 1_000 0b101 0xfF 1.5", "Literal(Number)@0..2 Literal(Number)@3..8 Literal(Number)@9..14 Literal(Number)@15..19 Literal(Number)@20..23"),
    ("-1 -.5 .5", "Literal(Number)@0..2 Operator(Substract)@3..4 Literal(Number)@4..6 Accessor@7..8 Literal(Number)@8..9"),
    ("(-1, -2)", "Block(Openning)@0..1 Literal(Number)@1..3 ArgSeparator@3..4 Literal(Number)@5..7 Block(Closing)@7..8"),
    ("a: .5", "Literal(Word)@0..1 VarDef(Normal)@1..2 Literal(Number)@3..5"),
    ("a = -1 & -2", "Literal(Word)@0..1 Comparison(Equal)@2..3 Literal(Number)@4..6 BinaryOperator(And)@7..8 Literal(Number)@9..11"),
    ("1 + -2", "Literal(Number)@0..1 Operator(Add)@2..3 Operator(Substract)@4..5 Literal(Number)@5..6"),
    ("1 - -2", "Literal(Number)@0..1 Operator(Substract)@2..3 Literal(Number)@4..6"),
    ("a.1.5", "Literal(Word)@0..1 Accessor@1..2 Literal(Number)@2..5"),
    ("a.1.b", "Literal(Word)@0..1 Accessor@1..2 Literal(Number)@2..3 Accessor@3..4 Literal(Word)@4..5"),
    ("a + 1.5", "Literal(Word)@0..1 Operator(Add)@2..3 Literal(Number)@4..7"),
    ("a 1.", "Literal(Word)@0..1 Literal(Number)@2..3 Accessor@3..4"),
    ("(1.)", "UnexpectedCharacter"),
    ("1.5.2", "Literal(Number)@0..3 Accessor@3..4 Literal(Number)@4..5"),
    ("1-2", "Literal(Number)@0..1 Operator(Substract)@1..2 Literal(Number)@2..3"),
    ("1+2", "Literal(Number)@0..1 Operator(Add)@1..2 Literal(Number)@2..3"),
    ("1)", "UnexpectedCharacter"),
    ("(1)", "Block(Openning)@0..1 Literal(Number)@1..2 Block(Closing)@2..3"),
    ("'a b'", "String[\"a b\"@1..4]@0..5"),
    ("''", "String[]@0..2"),
    ("\"a&(b + 1)c\"", "String[\"a\"@1..2 (Literal(Word)@4..5 Operator(Add)@6..7 Literal(Number)@8..9)@2..10 \"c\"@10..11]@0..12"),
    ("\"&((a))\"", "String[(Block(Openning)@3..4 Literal(Word)@4..5 Block(Closing)@5..6)@1..7]@0..8"),
    ("\"&()\"", "String[()@1..4]@0..5"),
    ("\"\\\"\" 'b'", "String[\"\\\"\"@1..3]@0..4 String[\"b\"@6..7]@5..8"),
    ("\"a&\"", "String[\"a&\"@1..3]@0..4"),
    ("\"&(-1)\"", "String[(Literal(Number)@3..5)@1..6]@0..7"),
    ("a || b || c", "Literal(Word)@0..1 Literal(Word)@10..11"),
    ("a | b\nc", "Literal(Word)@0..1 Literal(Word)@6..7"),
    ("a || b | c", "Literal(Word)@0..1"),
    ("a ||| b |||| c", "Literal(Word)@0..1"),
    ("a || b ||c", "Literal(Word)@0..1 Literal(Word)@9..10"),
    ("$", "UnknownCharacter"),
    ("(}", "InvalidScopeEnding"),
    ("'a", "UnclosedScope"),
    ("@", "Expected"),
];

#[test]
fn tokens_of_each_kind() {
    let mut wrong = String::new();
    for (script, expected) in TOKENS {
        let found = tokens(script);
        if found != *expected {
            wrong += &format!("{:?}\n  => {:?}\n", script, found);
        }
    }
    assert!(wrong.is_empty(), "\n{}", wrong);
}

#[test]
fn a_token_is_the_code_of_its_slice() {
    let script = "fn add(a, b, a + b); x: add(1, 0x2) | done";
    let found = lexify(script).unwrap();
    let chars: Vec<char> = script.chars().collect();
    for token in &found {
        let range = token.location.range();
        assert!(range.start < range.end && range.end <= chars.len());
        let expected: String = chars[range.clone()].iter().collect();
        assert_eq!(token.location.code(), expected);
        assert_eq!(token.location.module().code(), script);
        assert_eq!(token.location.module().path(), "tests-lexer");
    }
}

#[test]
fn tokens_and_what_is_passed_over_make_up_the_source() {
    let script = " a:1;; | note\n \"s&(b)\" ||x|| +: 2 ;";
    let found = lexify(script).unwrap();
    let chars: Vec<char> = script.chars().collect();
    let mut rebuilt = String::new();
    let mut at = 0;
    for token in &found {
        let range = token.location.range();
        assert!(at <= range.start);
        // What stands between two tokens holds no token.
        let between: String = chars[at..range.start].iter().collect();
        assert_eq!(lexify(&between.replace(';', " ")).unwrap().len(), 0);
        rebuilt += &between;
        rebuilt += token.location.code();
        at = range.end;
    }
    rebuilt += &chars[at..].iter().collect::<String>();
    assert_eq!(rebuilt, script);
}

#[test]
fn lexing_twice_gives_the_same_tokens() {
    let script = "a: \"x&(1 + 2)\"; fn f(a, a)";
    assert_eq!(tokens(script), tokens(script));
    let mut lexer = FlyLang::anonymous_lexer(script, None);
    let first = list(lexer.lexify().unwrap());
    // Lexing again goes on from the end: nothing is added.
    assert_eq!(list(lexer.lexify().unwrap()), first);
    assert_eq!(list(lexer.tokens()), first);
    assert_eq!(list(lexer.relexify().unwrap()), first);
    assert_eq!(lexer.module().code(), script);
}

#[test]
fn lexer_of_a_module() {
    let module = FlyLang::anonymous_module("a + 1", Some("m")).into_rc();
    let mut lexer = Lexer::new(&module);
    assert_eq!(lexer.tokens().len(), 0);
    assert_eq!(lexer.lexify().unwrap().len(), 3);
    let parser = Parser::from(&mut lexer).unwrap();
    assert_eq!(parser.len(), 3);
    assert_eq!(parser.module().path(), "m");
    assert_eq!(parser.location(2).code(), "1");
    assert_eq!(parser.tail().range(), 5..5);
    assert_eq!(parser.place(1).range(), 2..3);
    assert_eq!(parser.place(3).range(), 5..5);
    assert_eq!(parser.text(0), Some("a".to_string()));
    assert_eq!(parser.text(3), None);
}

#[test]
fn copies_of_tokens_are_deep() {
    let found = lexify("\"a&(b)\" +: c").unwrap();
    let copy = duplicate_tokens(&found);
    assert_eq!(list(&copy), list(&found));
    match &found[0].kind {
        Tokens::Literal(Literals::String(parts)) => {
            let copied = duplicate_parts(parts);
            assert_eq!(copied.len(), 2);
            assert!(matches!(&copied[0].kind, StringItem::Literal(text) if text == "a"));
        }
        other => panic!("{:?}", other),
    }
    assert!(matches!(
        &copy[1].kind,
        Tokens::VarDef(VarDefinition::WithOperation(operator)) if operator.kind == Operator::Add
    ));
}
