use flylang::flylang::errors::LangError;
use flylang::flylang::lexer::tokens::representations::number::{
    NumberRepresentation, NumberRepresentationBases,
};
use flylang::flylang::lexer::tokens::{Comparison, Operator, ScopeTarget, Token, Tokens};
use flylang::flylang::parser::ast::definables::Definables;
use flylang::flylang::parser::ast::expressions::literals::{ParsedLiterals, ParsedStringItem};
use flylang::flylang::parser::ast::expressions::operations::Operations;
use flylang::flylang::parser::ast::expressions::reverse::ReverseKind;
use flylang::flylang::parser::ast::expressions::Expressions;
use flylang::flylang::parser::ast::instructions::breakers::BreakKind;
use flylang::flylang::parser::ast::instructions::conditionnal::IfFallBack;
use flylang::flylang::parser::ast::instructions::loops::LoopParameter;
use flylang::flylang::parser::ast::instructions::Instructions;
use flylang::flylang::parser::ast::Node;
use flylang::flylang::utils::scoper::Scope;
use flylang::flylang::FlyLang;

fn lexify(script: &str) -> Result<Vec<Token<Tokens>>, LangError> {
    let mut lexer = FlyLang::anonymous_lexer(script, None);
    lexer.lexify()?;
    Ok(FlyLang::anonymous_parser(script, None)
        .map(|parser| {
            let mut tokens = vec![];
            for at in 0..parser.len() {
                tokens.push(flylang::flylang::lexer::tokens::duplicate_token(
                    parser.token(at),
                ));
            }
            tokens
        })
        .unwrap())
}

fn parse(script: &str) -> Vec<Node<Instructions>> {
    FlyLang::anonymous_parser(script, None)
        .unwrap()
        .program()
        .unwrap()
}

fn expression(script: &str) -> Expressions {
    let mut parsed = parse(script);
    assert_eq!(parsed.len(), 1);
    match parsed.remove(0).kind {
        Instructions::ValueOf(expression) => expression,
        other => panic!("{:?}", other),
    }
}

fn code(location: &flylang::flylang::module::slice::LangModuleSlice) -> String {
    location.code().to_string()
}

#[test]
fn program_true() {
    assert!(matches!(
        expression("true"),
        Expressions::Literal(ParsedLiterals::True)
    ));
}

#[test]
fn program_negative_float() {
    let parsed = parse("-.9874");
    assert!(matches!(
        parsed[0].kind(),
        Instructions::ValueOf(Expressions::Literal(ParsedLiterals::Number))
    ));
    let number = NumberRepresentation::from(parsed[0].location()).unwrap();
    assert!(number.negative);
    assert_eq!(number.integer, 0);
    assert_eq!(number.decimal, Some(9874));
    assert_eq!(number.decimal_length, 4);
    assert!(matches!(
        number.represented_as,
        NumberRepresentationBases::Decimal
    ));
}

#[test]
fn program_binary() {
    let parsed = parse("0b10110");
    let number = NumberRepresentation::from(parsed[0].location()).unwrap();
    assert!(matches!(
        number.represented_as,
        NumberRepresentationBases::Binary
    ));
    assert_eq!(number.integer, 22);
    assert_eq!(number.decimal, None);
    assert!(!number.negative);
}

#[test]
fn program_hexadecimal_with_decimal_point_is_refused() {
    let failed = FlyLang::anonymous_parser("0xeff.a55", None);
    match failed {
        Err(LangError::UnexpectedCharacter(error)) => {
            assert_eq!(code(&error.0), ".");
            assert_eq!(error.0.range(), 5..6);
        }
        other => panic!("{:?}", other.map(|_| ())),
    }
}

#[test]
fn program_precedence() {
    // 1 + 2 * 3 is 1 + (2 * 3)
    match expression("1 + 2 * 3") {
        Expressions::Operation(Operations::Numeric(add)) => {
            assert_eq!(add.operator.kind, Operator::Add);
            assert_eq!(code(&add.operands.0.location), "1");
            match &add.operands.1.kind {
                Expressions::Operation(Operations::Numeric(multiply)) => {
                    assert_eq!(multiply.operator.kind, Operator::Multiply);
                    assert_eq!(code(&multiply.operands.0.location), "2");
                    assert_eq!(code(&multiply.operands.1.location), "3");
                }
                other => panic!("{:?}", other),
            }
            assert_eq!(code(&add.operands.1.location), "2 * 3");
        }
        other => panic!("{:?}", other),
    }
}

#[test]
fn program_negated_comparison() {
    match expression("a !< b") {
        Expressions::Reverse(reverse) => {
            assert_eq!(reverse.kind, ReverseKind::Boolean);
            match &reverse.expression.kind {
                Expressions::Operation(Operations::Comparative(less)) => {
                    assert_eq!(less.operator.kind, Comparison::Less(true));
                    assert_eq!(code(&less.operands.0.location), "a");
                    assert_eq!(code(&less.operands.1.location), "b");
                }
                other => panic!("{:?}", other),
            }
        }
        other => panic!("{:?}", other),
    }
}

#[test]
fn program_function() {
    match expression("fn id(x, x)") {
        Expressions::Defined(Definables::Function(function)) => {
            assert_eq!(code(&function.name.as_ref().unwrap().location), "id");
            assert_eq!(function.arguments.len(), 1);
            assert_eq!(code(&function.arguments[0].location), "x");
            assert!(function.scope_target.is_none());
            assert_eq!(function.execution.len(), 1);
            match &function.execution[0].kind {
                Instructions::Break(returned) => match &returned.kind {
                    BreakKind::Return(None, Some(value)) => {
                        assert!(matches!(
                            value.kind,
                            Expressions::Literal(ParsedLiterals::Word)
                        ));
                        assert_eq!(value.location.range(), 9..10);
                    }
                    other => panic!("{:?}", other),
                },
                other => panic!("{:?}", other),
            }
        }
        other => panic!("{:?}", other),
    }
}

#[test]
fn program_string_with_expression() {
    match expression("\"hi &(x + 1)!\"") {
        Expressions::Literal(ParsedLiterals::String(parts)) => {
            assert_eq!(parts.len(), 3);
            match &parts[0].kind {
                ParsedStringItem::Literal(text) => assert_eq!(text, "hi "),
                other => panic!("{:?}", other),
            }
            match &parts[1].kind {
                ParsedStringItem::Expression(inner) => match &inner.kind {
                    Expressions::Operation(Operations::Numeric(add)) => {
                        assert_eq!(add.operator.kind, Operator::Add);
                        assert_eq!(code(&add.operands.0.location), "x");
                        assert_eq!(code(&add.operands.1.location), "1");
                    }
                    other => panic!("{:?}", other),
                },
                other => panic!("{:?}", other),
            }
            assert_eq!(code(&parts[1].location), "&(x + 1)");
            match &parts[2].kind {
                ParsedStringItem::Literal(text) => assert_eq!(text, "!"),
                other => panic!("{:?}", other),
            }
        }
        other => panic!("{:?}", other),
    }
}

#[test]
fn program_ternary() {
    match expression("if(c, a, b)") {
        Expressions::Ternary(ternary) => {
            assert_eq!(code(&ternary.condition.location), "c");
            assert_eq!(code(&ternary.yes.location), "a");
            assert_eq!(code(&ternary.no.location), "b");
        }
        other => panic!("{:?}", other),
    }
}

#[test]
fn program_if_else() {
    let parsed = parse("if(c, a) else (b)");
    assert_eq!(parsed.len(), 1);
    match &parsed[0].kind {
        Instructions::If(condition) => {
            assert_eq!(code(&condition.condition.location), "c");
            assert_eq!(condition.process.len(), 1);
            assert_eq!(code(&condition.process[0].location), "a");
            match &condition.fallback.as_ref().unwrap().kind {
                IfFallBack::Process(None, process) => {
                    assert_eq!(process.len(), 1);
                    assert_eq!(code(&process[0].location), "b");
                }
                other => panic!("{:?}", other),
            }
        }
        other => panic!("{:?}", other),
    }
    assert_eq!(code(&parsed[0].location), "if(c, a) else (b)");
}

#[test]
fn program_each() {
    let parsed = parse("each(xs, i, k, body)");
    assert_eq!(parsed.len(), 1);
    match &parsed[0].kind {
        Instructions::Loop(found) => {
            match &found.parameter {
                LoopParameter::Through(each) => {
                    assert_eq!(code(&each.iterable.location), "xs");
                    assert_eq!(code(&each.item.as_ref().unwrap().location), "i");
                    assert_eq!(code(&each.index.as_ref().unwrap().location), "k");
                }
                other => panic!("{:?}", other),
            }
            assert_eq!(found.process.len(), 1);
            assert_eq!(code(&found.process[0].location), "body");
            assert!(found.scope_target.is_none());
        }
        other => panic!("{:?}", other),
    }
}

#[test]
fn empty_file_has_no_instruction() {
    assert_eq!(parse("").len(), 0);
    assert_eq!(lexify("").unwrap().len(), 0);
    assert_eq!(parse("   \n\t ").len(), 0);
}

#[test]
fn unbalanced_block_is_unclosed() {
    match lexify("(") {
        Err(LangError::UnclosedScope(error)) => match error.0 {
            Scope::Block(opened) => assert_eq!(opened.range(), 0..1),
            other => panic!("{:?}", other),
        },
        other => panic!("{:?}", other.map(|_| ())),
    }
    match lexify("a (b {") {
        Err(LangError::UnclosedScope(error)) => match error.0 {
            Scope::Object(opened) => assert_eq!(opened.range(), 5..6),
            other => panic!("{:?}", other),
        },
        other => panic!("{:?}", other.map(|_| ())),
    }
}

#[test]
fn runaway_string_is_unclosed() {
    match lexify("'abc") {
        Err(LangError::UnclosedScope(error)) => match error.0 {
            Scope::String(opened) => {
                assert_eq!(opened.range(), 0..1);
                assert_eq!(opened.code(), "'");
            }
            other => panic!("{:?}", other),
        },
        other => panic!("{:?}", other.map(|_| ())),
    }
    assert!(matches!(
        lexify("\"abc\\"),
        Err(LangError::UnclosedScope(_))
    ));
}

#[test]
fn ends_of_instruction_coalesce() {
    let tokens = lexify(";;;;").unwrap();
    assert_eq!(tokens.len(), 1);
    assert!(matches!(tokens[0].kind, Tokens::EndOfInstruction));
    assert_eq!(tokens[0].location.range(), 0..1);

    let tokens = lexify("a;;;;b").unwrap();
    assert_eq!(tokens.len(), 3);
    assert!(matches!(tokens[1].kind, Tokens::EndOfInstruction));

    let parsed = parse("a;;;;b");
    assert_eq!(parsed.len(), 2);
    assert_eq!(parse(";;;;").len(), 0);
}

#[test]
fn scope_targets() {
    let tokens = lexify("@name @<<< @3").unwrap();
    assert_eq!(tokens.len(), 3);
    match &tokens[0].kind {
        Tokens::ScopeTarget(ScopeTarget::Named(name)) => assert_eq!(name, "name"),
        other => panic!("{:?}", other),
    }
    assert!(matches!(
        tokens[1].kind,
        Tokens::ScopeTarget(ScopeTarget::Numbered(3))
    ));
    assert!(matches!(
        tokens[2].kind,
        Tokens::ScopeTarget(ScopeTarget::Numbered(3))
    ));
    assert_eq!(tokens[1].location.code(), "@<<<");
}
