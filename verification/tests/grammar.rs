use flylang::flylang::errors::LangError;
use flylang::flylang::lexer::tokens::{duplicate_token, ScopeTarget, Token, Tokens};
use flylang::flylang::module::slice::LangModuleSlice;
use flylang::flylang::parser::ast::definables::class::DefineClass;
use flylang::flylang::parser::ast::definables::functions::DefineFunction;
use flylang::flylang::parser::ast::definables::variables::{DefineVariable, VariableEmplacements};
use flylang::flylang::parser::ast::definables::Definables;
use flylang::flylang::parser::ast::expressions::call::Call;
use flylang::flylang::parser::ast::expressions::literals::{
    ParsedLiterals, ParsedStringItem, Word,
};
use flylang::flylang::parser::ast::expressions::instanciate::ClassInstanciation;
use flylang::flylang::parser::ast::expressions::modified::{ModifiedDefinable, Modifier};
use flylang::flylang::parser::ast::expressions::objects::PrimaryObject;
use flylang::flylang::parser::ast::expressions::operations::Operations;
use flylang::flylang::parser::ast::expressions::property::{Property, ReadProperty};
use flylang::flylang::parser::ast::expressions::reverse::ReverseKind;
use flylang::flylang::parser::ast::expressions::Expressions;
use flylang::flylang::parser::ast::instructions::breakers::BreakKind;
use flylang::flylang::parser::ast::instructions::conditionnal::{If, IfFallBack};
use flylang::flylang::parser::ast::instructions::loops::{Loop, LoopParameter};
use flylang::flylang::parser::ast::instructions::package::{
    Package, PackageContentEmplacement, PackageIncludedContent, PackageSource,
};
use flylang::flylang::parser::ast::instructions::Instructions;
use flylang::flylang::parser::ast::Node;
use flylang::flylang::parser::mods::{BehaviorSet, ParserBehaviors};
use flylang::flylang::parser::parsable::Parsable;
use flylang::flylang::FlyLang;

fn code(location: &LangModuleSlice) -> String {
    location.code().to_string()
}

fn list<T>(items: &[T], show: impl Fn(&T) -> String) -> String {
    items.iter().map(show).collect::<Vec<_>>().join(" ")
}

fn word(node: &Node<Word>) -> String {
    code(&node.location)
}

fn target(target: &ScopeTarget) -> String {
    match target {
        ScopeTarget::Named(name) => format!("@{}", name),
        ScopeTarget::Numbered(amount) => format!("@{}", amount),
    }
}

fn optional(node: &Option<Node<ScopeTarget>>) -> String {
    match node {
        Some(node) => format!(" {}", target(&node.kind)),
        None => String::new(),
    }
}

fn optional_token(token: &Option<Token<ScopeTarget>>) -> String {
    match token {
        Some(token) => format!(" {}", target(&token.kind)),
        None => String::new(),
    }
}

fn call(call: &Call) -> String {
    format!(
        "(call {} [{}])",
        expression(&call.callable),
        list(&call.arguments, |argument| expression(&argument))
    )
}

fn function(function: &DefineFunction) -> String {
    format!(
        "(fn {}{} [{}] {})",
        function.name.as_ref().map(word).unwrap_or("_".into()),
        optional(&function.scope_target),
        list(&function.arguments, word),
        block(&function.execution)
    )
}

fn variable(variable: &DefineVariable) -> String {
    format!(
        "({} {} {})",
        if variable.readonly { "const" } else { "def" },
        match &variable.emplacement.kind {
            VariableEmplacements::Scope => code(&variable.emplacement.location),
            VariableEmplacements::Property(read) =>
                format!("(. {} {})", expression(&read.from), property(&read.read)),
            VariableEmplacements::Any(any) => format!("(any {})", shown(any, &variable.emplacement.location)),
        },
        expression(&variable.value)
    )
}

fn modifiers(modified_by: &[Node<Modifier>]) -> String {
    list(modified_by, |modifier| match &modifier.kind {
        Modifier::DefinedElement => code(&modifier.location),
        Modifier::CallReturn(called) => call(called),
    })
}

fn marked(modified_by: &[Node<Modifier>]) -> String {
    if modified_by.is_empty() {
        String::new()
    } else {
        format!(" #[{}]", modifiers(modified_by))
    }
}

fn class(class: &DefineClass) -> String {
    format!(
        "(cs {} [{}] {} [{}] [{}])",
        word(&class.name),
        list(&class.parents, word),
        class
            .constructor
            .as_ref()
            .map(|constructor| function(&constructor.kind))
            .unwrap_or("_".into()),
        list(&class.attributes, |attribute| format!(
            "({}{} {})",
            word(&attribute.kind.name),
            marked(&attribute.kind.modified_by),
            expression(&attribute.kind.value)
        )),
        list(&class.methods, |method| format!(
            "({}{}{} [{}] {})",
            word(&method.kind.name),
            marked(&method.kind.modified_by),
            optional(&method.kind.scope_target),
            list(&method.kind.arguments, word),
            block(&method.kind.execution)
        )),
    )
}

fn property(read: &Node<Property>) -> String {
    match &read.kind {
        Property::Key => format!("key:{}", code(&read.location)),
        Property::Index => format!("index:{}", code(&read.location)),
        Property::Expression(inner) => format!("at:{}", expression(&inner)),
    }
}

fn expression(node: &Node<Expressions>) -> String {
    shown(&node.kind, &node.location)
}

fn shown(kind: &Expressions, location: &LangModuleSlice) -> String {
    match kind {
        Expressions::Literal(ParsedLiterals::String(parts)) => format!(
            "(str {})",
            list(parts, |part| match &part.kind {
                ParsedStringItem::Literal(text) => format!("{:?}", text),
                ParsedStringItem::Expression(inner) => format!("&{}", expression(&inner)),
            })
        ),
        Expressions::Literal(ParsedLiterals::Empty) => "()".to_string(),
        Expressions::Literal(_) => code(location),
        Expressions::Defined(Definables::Variable(defined)) => variable(defined),
        Expressions::Defined(Definables::Function(defined)) => function(defined),
        Expressions::Defined(Definables::Class(defined)) => class(defined),
        Expressions::Read(read) => format!(
            "(. {} {})",
            expression(&read.from),
            property(&read.read)
        ),
        Expressions::ReturnOf(called) => call(called),
        Expressions::Reverse(reverse) => format!(
            "({} {})",
            match reverse.kind {
                ReverseKind::Sign => "neg",
                ReverseKind::Boolean => "not",
            },
            expression(&reverse.expression)
        ),
        Expressions::Operation(operation) => match operation {
            Operations::Numeric(operation) => format!(
                "({:?} {} {})",
                operation.operator.kind,
                expression(&operation.operands.0),
                expression(&operation.operands.1)
            ),
            Operations::Binary(operation) => format!(
                "({:?} {} {})",
                operation.operator.kind,
                expression(&operation.operands.0),
                expression(&operation.operands.1)
            ),
            Operations::Comparative(operation) => format!(
                "({:?} {} {})",
                operation.operator.kind,
                expression(&operation.operands.0),
                expression(&operation.operands.1)
            ),
        },
        Expressions::Prioritized(inner) => format!("(group {})", expression(&inner)),
        Expressions::Ternary(ternary) => format!(
            "(? {} {} {})",
            expression(&ternary.condition),
            expression(&ternary.yes),
            expression(&ternary.no)
        ),
        Expressions::Structure(structure) => format!(
            "{{{}}}",
            list(&structure.entries, |entry| format!(
                "{}={}",
                expression(&entry.kind.key),
                expression(&entry.kind.value)
            ))
        ),
        Expressions::Array(array) => {
            format!("[{}]", list(&array.entries, |entry| expression(&entry)))
        }
        Expressions::Instanciate(made) => format!(
            "(new {} [{}])",
            expression(&made.class),
            list(&made.arguments, |argument| expression(&argument))
        ),
        Expressions::Modified(modified) => format!(
            "(# [{}] {})",
            modifiers(&modified.modified_by),
            match &modified.definable.kind {
                Definables::Variable(defined) => variable(defined),
                Definables::Function(defined) => function(defined),
                Definables::Class(defined) => class(defined),
            }
        ),
    }
}

fn condition(found: &If) -> String {
    format!(
        "(if{} {} {}{})",
        optional(&found.scope_target),
        expression(&found.condition),
        block(&found.process),
        match &found.fallback {
            None => String::new(),
            Some(fallback) => match &fallback.kind {
                IfFallBack::Process(scope, process) =>
                    format!(" else{} {}", optional(scope), block(process)),
                IfFallBack::If(next) => format!(" else {}", condition(&next.kind)),
            },
        }
    )
}

fn instruction(node: &Node<Instructions>) -> String {
    let location = &node.location;
    match &node.kind {
        Instructions::ValueOf(value) => shown(value, location),
        Instructions::If(found) => condition(found),
        Instructions::Loop(found) => format!(
            "({}{} {})",
            match &found.parameter {
                LoopParameter::Through(each) => format!(
                    "each {} {} {}",
                    expression(&each.iterable),
                    each.item.as_ref().map(word).unwrap_or("_".into()),
                    each.index.as_ref().map(word).unwrap_or("_".into())
                ),
                LoopParameter::Conditionnaly(conditionnaly) => format!(
                    "while {} {}",
                    expression(&conditionnaly.condition),
                    conditionnaly
                        .iteration_number
                        .as_ref()
                        .map(word)
                        .unwrap_or("_".into())
                ),
            },
            optional(&found.scope_target),
            block(&found.process)
        ),
        Instructions::Break(found) => match &found.kind {
            BreakKind::Stop(scope) => format!("(stop{})", optional_token(scope)),
            BreakKind::Pass(scope) => format!("(pass{})", optional_token(scope)),
            BreakKind::Return(scope, value) => format!(
                "(return{}{})",
                optional_token(scope),
                value
                    .as_ref()
                    .map(|value| format!(" {}", expression(&value)))
                    .unwrap_or_default()
            ),
        },
        Instructions::Use(found) => format!(
            "(use {} {} {})",
            match &found.source {
                PackageSource::Package(name) => format!("package:{}", name),
                PackageSource::File(path) => format!("file:{}", path),
            },
            match &found.included {
                PackageIncludedContent::All => "*".to_string(),
                PackageIncludedContent::Only(names) => format!("[{}]", list(names, word)),
            },
            match &found.emplacement {
                PackageContentEmplacement::Global => "global".to_string(),
                PackageContentEmplacement::Variable(name) => word(name),
            }
        ),
    }
}

fn block(instructions: &[Node<Instructions>]) -> String {
    format!(
        "<{}>",
        instructions
            .iter()
            .map(instruction)
            .collect::<Vec<_>>()
            .join("; ")
    )
}

fn place(location: &LangModuleSlice) -> String {
    let range = location.range();
    format!("{}..{}", range.start, range.end)
}

fn failure(error: &LangError) -> String {
    match error {
        LangError::UnknownCharacter(error) => format!("UnknownCharacter {}", place(&error.0)),
        LangError::UnexpectedCharacter(error) => {
            format!("UnexpectedCharacter {} {:?}", place(&error.0), error.1)
        }
        LangError::InvalidScopeEnding(error) => format!(
            "InvalidScopeEnding {} {} {}",
            place(&error.0),
            error.1.label(),
            place(error.1.data())
        ),
        LangError::UnclosedScope(error) => {
            format!("UnclosedScope {} {}", error.0.label(), place(error.0.data()))
        }
        LangError::Expected(error) => format!(
            "Expected {} {:?} {:?}",
            place(&error.after),
            error.expected,
            error.but_found
        ),
        LangError::UnexpectedNode(error) => format!(
            "UnexpectedNode {} {}",
            place(&error.0.location),
            instruction(&error.0)
        ),
        LangError::UnexpectedToken(error) => format!(
            "UnexpectedToken {} {:?}",
            place(&error.0.location),
            error.0.location.code()
        ),
        LangError::UnableToParse(error) => {
            format!("UnableToParse {} {:?}", place(&error.0), error.1)
        }
        LangError::EmptyScope(error) => format!("EmptyScope {}", place(&error.0)),
    }
}

fn tokens(script: &str) -> Result<Vec<Token<Tokens>>, LangError> {
    let parser = FlyLang::anonymous_parser(script, None)?;
    Ok((0..parser.len())
        .map(|at| duplicate_token(parser.token(at)))
        .collect())
}

/// The tree of the script, or the error that it raises, in a few words.
fn tree(script: &str) -> String {
    match FlyLang::anonymous_parser(script, None) {
        Err(error) => format!("lexing: {}", failure(&error)),
        Ok(parser) => match parser.program() {
            Err(error) => format!("parsing: {}", failure(&error)),
            Ok(instructions) => block(&instructions),
        },
    }
}

const TREES: &[(&str, &str)] = &[
    ("1 + 2 + 3", "<(Add (Add 1 2) 3)>"),
    ("1 - 2 - 3", "<(Substract (Substract 1 2) 3)>"),
    ("1 * 2 + 3", "<(Add (Multiply 1 2) 3)>"),
    ("1 + 2 * 3 + 4", "<(Add (Add 1 (Multiply 2 3)) 4)>"),
    ("a ** b // c % d", "<(Modulo (EuclidianDivision (Power a b) c) d)>"),
    ("a & b & c", "<(And (And a b) c)>"),
    ("a & b ? c", "<(And a (Or b c))>"),
    ("a ? b & c", "<(And (Or a b) c)>"),
    ("a ~ b ? c", "<(Xor a (Or b c))>"),
    ("a & b ~ c", "<(And a (Xor b c))>"),
    ("1 + 2 < 3", "<(Add 1 (Less(true) 2 3))>"),
    ("1 < 2 + 3", "<(Add (Less(true) 1 2) 3)>"),
    ("a ? b = c", "<(Or a (Equal b c))>"),
    ("a <= b", "<(Less(false) a b)>"),
    ("a >= b", "<(Greater(false) a b)>"),
    ("a > b", "<(Greater(true) a b)>"),
    ("a = b = c", "<(Equal a (Equal b c))>"),
    ("(1 + 2) * 3", "<(Multiply (group (Add 1 2)) 3)>"),
    ("a !& b", "<(not (And a b))>"),
    ("a !< b", "<(not (Less(true) a b))>"),
    ("!a", "<(not a)>"),
    ("!a & b", "<(And (not a) b)>"),
    ("a & !b", "<(And a (not b))>"),
    ("-x", "<(neg x)>"),
    ("1 + -2", "<(Add 1 -2)>"),
    ("1 - -2", "<(Substract 1 -2)>"),
    ("-(1)", "<(neg (group 1))>"),
    ("a - 1", "<(Substract a 1)>"),
    ("a -1", "<(Substract a 1)>"),
    ("x: -1", "<(def x -1)>"),
    ("f(-1, .5)", "<(call f [-1 .5])>"),
    ("a.b.1.(c)", "<(. (. (. a key:b) index:1) at:(group c))>"),
    ("a.()", "<(. a at:())>"),
    ("a.true", "<(. a key:true)>"),
    ("f()", "<(call f [])>"),
    ("f(1)(2)", "<(call (call f [1]) [2])>"),
    ("f(a, b + 1)", "<(call f [a (Add b 1)])>"),
    ("new Foo(1, 2)", "<(new Foo [1 2])>"),
    ("new Foo(1, 2).bar", "parsing: UnexpectedNode 4..17 (. (call Foo [1 2]) key:bar)"),
    ("new Foo(1) + 2", "<(Add (new Foo [1]) 2)>"),
    ("new a.B()", "<(new (. a key:B) [])>"),
    ("()", "<()>"),
    ("'it\\'s' \"a\\tb\"", "parsing: UnexpectedToken 8..14 \"\\\"a\\\\tb\\\"\""),
    ("'it\\'s'", "<(str \"it's\")>"),
    ("\"a\\tb\\n\\r\\s\\\\\\\"\\q\"", "<(str \"a\\tb\\n\\r \\\\\\\"q\")>"),
    ("\"\\b\\f\"", "<(str \"\\u{8}\\u{c}\")>"),
    ("''", "<(str )>"),
    ("\"&(a)&(b)\"", "<(str &a &b)>"),
    ("\"a & b &\"", "<(str \"a & b &\")>"),
    ("'&(a)'", "<(str \"&(a)\")>"),
    ("\"\\\\&(a)\"", "<(str \"\\\\\" &a)>"),
    ("\"x&(\"y&(z)\")\"", "<(str \"x\" &(str \"y\" &z))>"),
    ("aéb", "<aéb>"),
    ("x: 1; y:: 2", "<(def x 1); (const y 2)>"),
    ("x +: 1", "<(def x (Add x 1))>"),
    ("x *: 2 + 1", "<(def x (Multiply x (Add 2 1)))>"),
    ("x.y: 2", "<(def (. x key:y) 2)>"),
    ("a: b: c", "<(def a (def b c))>"),
    ("a: 0x1F + 0b11", "<(def a (Add 0x1F 0b11))>"),
    ("a: {b: 1}", "<(def a {b=1})>"),
    ("fn id(x, x)", "<(fn id [x] <(return x)>)>"),
    ("fn f(a, b, a + b)", "<(fn f [a b] <(return (Add a b))>)>"),
    ("fn(1)", "<(fn _ [] <(return 1)>)>"),
    ("fn f @t (x)", "<(fn f @t [] <(return x)>)>"),
    ("fn f()", "<(fn f [] <>)>"),
    ("fn(return 1; 2)", "<(fn _ [] <(return 1); 2>)>"),
    ("fn(a, b: 1; b)", "<(fn _ [a] <(def b 1); b>)>"),
    ("cs A(B, fn(x, x), a: 1; fn m(1))", "<(cs A [B] (fn _ [x] <(return x)>) [(a 1)] [(m [] <(return 1)>)])>"),
    ("cs A()", "<(cs A [] _ [] [])>"),
    ("cs A(a, b, fn(x), fn m(y); z: 1)", "<(cs A [a b] (fn _ [] <(return x)>) [(z 1)] [(m [] <(return y)>)])>"),
    ("#(deco, other(1)) fn f(x)", "<(# [deco (call other [1])] (fn f [] <(return x)>))>"),
    ("#(deco) a: 1", "<(# [deco] (def a 1))>"),
    ("#{deco, other(1)} fn f(x)", "<(# [deco (call other [1])] (fn f [] <(return x)>))>"),
    ("cs A(#(m) a: 1; #{n(2)} fn f(x); b: 2)", "<(cs A [] _ [(a #[m] 1) (b 2)] [(f #[(call n [2])] [] <(return x)>)])>"),
    ("{a: 1, b: 2}", "<{a=1 b=2}>"),
    ("{1, 2}", "<[1 2]>"),
    ("{:}", "<{}>"),
    ("{}", "<[]>"),
    ("{(a): 1}", "<{(group a)=1}>"),
    ("{\"k\": 1}", "<{(str \"k\")=1}>"),
    ("{a: fn(x, x)}", "<{a=(fn _ [x] <(return x)>)}>"),
    ("{{1}, {a: 2}}", "<[[1] {a=2}]>"),
    ("{a.b: 1}", "<[(def (. a key:b) 1)]>"),
    ("{1, a.b:: 2}", "<[1 (const (. a key:b) 2)]>"),
    ("if(c, a, b)", "<(? c a b)>"),
    ("x: if(c, a, b)", "<(def x (? c a b))>"),
    ("if(c, a) else (b)", "<(if c <a> else <b>)>"),
    ("if @x (c, a; b)", "<(if @x c <a; b>)>"),
    ("if(a, b) else if(c, d) else (e)", "<(if a <b> else (if c <d> else <e>))>"),
    ("if(a,)", "<(if a <>)>"),
    ("each(xs, i, k, body)", "<(each xs i k <body>)>"),
    ("each(xs, i, body)", "<(each xs i _ <body>)>"),
    ("each(xs, body)", "<(each xs _ _ <body>)>"),
    ("while @out (a < 1, i, stop @out)", "<(while (Less(true) a 1) i @out <(stop @out)>)>"),
    ("while(a, b; c)", "<(while a _ <b; c>)>"),
    ("until(a, pass)", "<(while (not a) _ <(pass)>)>"),
    ("return 1", "<(return 1)>"),
    ("return", "<(return)>"),
    ("return @x a + 1; b", "<(return @x (Add a 1)); b>"),
    ("f(return)", "parsing: UnexpectedNode 2..8 (return)"),
    ("pass @x", "<(pass @x)>"),
    ("stop @<<", "<(stop @2)>"),
    ("stop @3", "<(stop @3)>"),
    ("use {a, b} from \"./lib\" in lib;", "<(use file:./lib [a b] lib)>"),
    ("use (a) from '/x'", "<(use file:/x [a] global)>"),
    ("use \"pkg\"", "<(use package:pkg * global)>"),
    ("use \"pkg\" in p; a", "<(use package:pkg * p); a>"),
    ("a; | comment \n b; || block | a || c", "<a; b; c>"),
    ("||", "<>"),
    ("|", "<>"),
    ("a;;;b;", "<a; b>"),
];

const FAILURES: &[(&str, &str)] = &[
    ("a b", "parsing: UnexpectedToken 2..3 \"b\""),
    (")", "lexing: UnexpectedCharacter 0..1 None"),
    ("(}", "lexing: InvalidScopeEnding 1..2 Block 0..1"),
    ("{)", "lexing: InvalidScopeEnding 1..2 Object 0..1"),
    ("$", "lexing: UnknownCharacter 0..1"),
    ("a $", "lexing: UnknownCharacter 2..3"),
    ("(a", "lexing: UnclosedScope Block 0..1"),
    ("\"&(\"", "lexing: UnclosedScope String 3..4"),
    ("\"&(a", "lexing: UnclosedScope Block 1..3"),
    ("\"&(a}\"", "lexing: InvalidScopeEnding 4..5 Block 1..3"),
    ("@", "lexing: Expected 0..1 Some(\"multiple '<', an integer < 0 or a word\") None"),
    ("@-1", "lexing: UnknownCharacter 1..2"),
    ("@0", "lexing: Expected 0..1 Some(\"multiple '<', an integer < 0 or a word\") Some(\"a negative and/or decimal-based number\")"),
    ("@1.5", "lexing: Expected 0..1 Some(\"multiple '<', an integer < 0 or a word\") Some(\"a negative and/or decimal-based number\")"),
    ("@\"x\"", "lexing: Expected 0..1 Some(\"multiple '<', an integer < 0 or a word\") Some(\"\\\"x\\\"\")"),
    ("0x", "lexing: UnexpectedCharacter 1..2 Some(\".[0-9]\")"),
    ("0b2", "lexing: UnexpectedCharacter 2..3 Some(\"[0-9]\")"),
    ("1.", "lexing: UnexpectedCharacter 1..2 Some(\".[0-9]\")"),
    ("1.a", "lexing: UnexpectedCharacter 2..3 Some(\"[0-9]\")"),
    ("12a", "lexing: UnexpectedCharacter 2..3 Some(\"[0-9._]\")"),
    ("1x2", "lexing: UnexpectedCharacter 1..2 Some(\"[0-9._-]\")"),
    ("0xeff.a55", "lexing: UnexpectedCharacter 5..6 Some(\"[0-9_]\")"),
    ("0b101.101", "lexing: UnexpectedCharacter 5..6 Some(\"[0-9_]\")"),
    ("a +:: 1", "lexing: UnexpectedCharacter 3..5 Some(\"<operator>: ...\")"),
    ("fn", "parsing: UnexpectedToken 0..2 \"fn\""),
    ("fn f", "parsing: Expected 3..4 Some(\"(\") None"),
    ("fn 1", "parsing: UnexpectedToken 3..4 \"1\""),
    ("fn(1, 2)", "parsing: UnexpectedNode 3..4 1"),
    ("fn(a b, c)", "parsing: UnexpectedToken 5..6 \"b\""),
    ("fn(a; b, c)", "parsing: UnableToParse 2..11 \"One of the argument is not a valid expression\""),
    ("fn @3 (a)", "parsing: UnableToParse 3..5 \"You can only define a scope by a name\""),
    ("fn @x a", "parsing: Expected 3..5 Some(\"'('\") Some(\"a\")"),
    ("fn @x", "parsing: Expected 5..5 Some(\"'('\") None"),
    ("if", "parsing: UnexpectedToken 0..2 \"if\""),
    ("if a", "parsing: Expected 0..2 Some(\"(<condition>, <code>)\") Some(\"a\")"),
    ("if(a)", "parsing: UnableToParse 2..5 \"Expected 2 or 3 arguments\""),
    ("if(a, b, c, d)", "parsing: UnableToParse 2..14 \"Expected 2 or 3 arguments\""),
    ("if(a; b, c)", "parsing: UnableToParse 2..11 \"Unable to validate the condition. Expected 1 expression\""),
    ("if(a, b; c, d)", "parsing: UnableToParse 2..14 \"Unable to parse ternary items : expected 1 expression per argument\""),
    ("if(a, b, c; d)", "parsing: UnableToParse 2..14 \"Unable to parse ternary items : expected 1 expression per argument\""),
    ("if @x (a, b, c)", "parsing: UnexpectedToken 3..5 \"@x\""),
    ("if(a, b) else c", "parsing: Expected 9..13 Some(\"( or <if_instruction>\") Some(\"c\")"),
    ("if(a, b) else", "parsing: UnexpectedToken 9..13 \"else\""),
    ("if(a, b) else if(c, d, e)", "parsing: UnexpectedNode 14..25 (? c d e)"),
    ("x: if(a, b)", "parsing: UnexpectedNode 3..11 (if a <b>)"),
    ("if(return, b)", "parsing: UnexpectedNode 3..9 (return)"),
    ("else", "parsing: UnexpectedToken 0..4 \"else\""),
    ("each(xs)", "parsing: UnableToParse 4..8 \"Too much arguments or missing code to execute each loop repetition. (Add a trailing ',' to give an empty execution)\""),
    ("each(a, b, c, d, e)", "parsing: UnableToParse 4..19 \"Too much arguments or missing code to execute each loop repetition. (Add a trailing ',' to give an empty execution)\""),
    ("each(a, 1, c)", "parsing: UnexpectedNode 8..9 1"),
    ("each(a, b; c, d)", "parsing: UnableToParse 4..16 \"Invalid arguments given.\""),
    ("each(, a)", "parsing: UnableToParse 4..9 \"Missing the iteratable\""),
    ("while(, a)", "parsing: UnableToParse 5..10 \"Missing the condition\""),
    ("while(a, b, c, d)", "parsing: UnableToParse 5..17 \"Too much arguments or missing code to execute each loop repetition. (Add a trailing ',' to give an empty execution)\""),
    ("while a", "parsing: Expected 6..7 Some(\"'(' or '@scope ('\") None"),
    ("while", "parsing: Expected 5..5 Some(\"'(' or '@scope ('\") None"),
    ("a while(b, c)", "parsing: UnexpectedToken 2..7 \"while\""),
    ("return a, b", "parsing: UnexpectedToken 8..9 \",\""),
    ("a return", "parsing: UnexpectedToken 2..8 \"return\""),
    ("use", "parsing: Expected 0..3 Some(\"Package location\") None"),
    ("use a", "parsing: UnexpectedToken 4..5 \"a\""),
    ("use 1", "parsing: UnexpectedToken 4..5 \"1\""),
    ("use {a} \"x\"", "parsing: Expected 6..7 Some(\"from <module>\") Some(\"\\\"x\\\"\")"),
    ("use {a}", "parsing: Expected 6..7 Some(\"from <module>\") None"),
    ("use {a; b} from \"x\"", "parsing: UnableToParse 9..10 \"Invalid syntax inside the block\""),
    ("use {1} from \"x\"", "parsing: UnexpectedNode 5..6 1"),
    ("use {a} from", "parsing: UnexpectedToken 8..12 \"from\""),
    ("use \"a&(b)\"", "parsing: UnableToParse 4..11 \"Expected a string to describe where to find the package. Note that the string must not include expressions in it.\""),
    ("use \"\"", "parsing: UnableToParse 4..6 \"Expected a string to describe where to find the package. Note that the string must not include expressions in it.\""),
    ("use \"x\" y", "parsing: UnexpectedToken 8..9 \"y\""),
    ("use \"x\" in", "parsing: UnexpectedToken 8..10 \"in\""),
    ("use \"x\" in 1", "parsing: UnexpectedToken 8..10 \"in\""),
    ("a use \"x\"", "parsing: UnexpectedToken 2..5 \"use\""),
    ("new x", "parsing: UnexpectedNode 4..5 x"),
    ("new", "parsing: Expected 0..3 Some(\"<class-call>\") None"),
    ("a new b()", "parsing: UnexpectedToken 2..5 \"new\""),
    ("#() a", "parsing: UnableToParse 0..1 \"Invalid syntax in the modifiers list\""),
    ("#{} a", "parsing: UnableToParse 0..1 \"Invalid syntax in the modifiers list\""),
    ("# a", "parsing: Expected 2..3 Some(\"'(' or '@scope ('\") None"),
    ("cs A(#(m) cs B(); a: 1)", "parsing: UnexpectedNode 5..16 (# [m] (cs B [] _ [] []))"),
    ("cs A(#(m) fn(x); a: 1)", "parsing: UnableToParse 5..15 \"Methods must have a name\""),
    ("#(a; b) fn f(x)", "parsing: UnableToParse 2..6 \"Expected function\""),
    ("#(1) fn f(x)", "parsing: UnableToParse 2..3 \"Expected function\""),
    ("#(a)", "parsing: UnableToParse 4..4 \"Expected function\""),
    ("#(a) b", "parsing: UnableToParse 5..6 \"Expected a function or variable definition\""),
    ("# @x (a) fn f(x)", "parsing: UnableToParse 2..4 \"Invalid syntax\""),
    ("a #(b) fn f(x)", "parsing: UnexpectedToken 2..3 \"#\""),
    ("{a: 1, 2}", "parsing: UnexpectedNode 7..8 2"),
    ("{1, a: 2}", "parsing: UnexpectedNode 4..8 (def a 2)"),
    ("{a:: 1}", "parsing: UnableToParse 1..6 \"Invalid character. \\\"::\\\" cannot be used for structure items.\""),
    ("{a: 1, b.c: 2}", "parsing: UnexpectedNode 7..13 (def (. b key:c) 2)"),
    ("{a.b: 1, c: 2}", "parsing: UnexpectedNode 9..13 (def c 2)"),
    ("{a; b}", "parsing: UnableToParse 0..6 \"Expected 1 single expression per object's item\""),
    ("{return}", "parsing: UnexpectedToken 7..8 \"}\""),
    ("{return;}", "parsing: UnexpectedNode 1..7 (return)"),
    ("a {}", "parsing: UnexpectedToken 2..3 \"{\""),
    ("a.+", "parsing: UnexpectedToken 2..3 \"+\""),
    ("a.", "parsing: Expected 1..2 None None"),
    (".a", "parsing: UnexpectedToken 0..1 \".\""),
    ("f(a; b)", "parsing: UnableToParse 1..7 \"One of the argument is not a valid expression\""),
    ("f(return)", "parsing: UnexpectedNode 2..8 (return)"),
    ("1 +", "parsing: UnexpectedToken 2..3 \"+\""),
    ("+ 1", "parsing: UnexpectedToken 0..1 \"+\""),
    ("-", "parsing: UnexpectedToken 0..1 \"-\""),
    ("!", "parsing: UnexpectedToken 0..1 \"!\""),
    ("a ! b", "parsing: UnexpectedToken 2..3 \"!\""),
    ("1 + !", "parsing: UnexpectedToken 4..5 \"!\""),
    ("(1 2)", "parsing: UnexpectedToken 3..4 \"2\""),
    ("(1; 2)", "parsing: Expected 1..2 Some(\")\") Some(\";\")"),
    ("1: 2", "parsing: UnexpectedNode 0..1 1"),
    (": 2", "parsing: UnexpectedToken 0..1 \":\""),
    ("a:", "parsing: Expected 1..2 Some(\"variable's new value\") None"),
    ("(return): 1", "parsing: UnexpectedToken 1..7 \"return\""),
    ("if(a, b): 1", "parsing: UnexpectedToken 8..9 \":\""),
    ("cs", "parsing: Expected 0..2 Some(\"class name\") None"),
    ("cs 1", "parsing: UnexpectedToken 3..4 \"1\""),
    ("cs A", "parsing: Expected 4..4 Some(\"'('\") None"),
    ("cs A b", "parsing: Expected 5..6 Some(\"'('\") None"),
    ("cs A(fn(x), a)", "parsing: UnexpectedNode 12..13 a"),
    ("cs A(a: 1, b: 2)", "parsing: UnableToParse 11..15 \"Cannot declare multiple body\""),
    ("cs A(a: 1,,)", "parsing: UnableToParse 0..12 \"Cannot declare multiple body\""),
    ("cs A(fn(x), fn(y))", "parsing: UnableToParse 12..17 \"Methods must have a name\""),
    ("cs A(a.b: 1)", "parsing: UnableToParse 5..8 \"Invalid attribute name\""),
    ("cs A(1)", "parsing: UnexpectedNode 5..6 1"),
    ("cs A(cs B())", "parsing: UnexpectedNode 5..11 (cs B [] _ [] [])"),
    ("a cs A()", "parsing: UnexpectedToken 2..4 \"cs\""),
    ("\"&(a b)\"", "parsing: UnexpectedToken 5..6 \"b\""),
    ("\"&(a; b)\"", "parsing: UnableToParse 1..8 \"Expected a single expression\""),
    ("\"&()\"", "parsing: UnableToParse 1..4 \"Expected a single expression\""),
    ("\"&(return)\"", "parsing: UnexpectedNode 3..9 (return)"),
    ("if(c, a, b) + 1", "parsing: UnexpectedToken 12..13 \"+\""),
    ("@x", "parsing: UnexpectedToken 0..2 \"@x\""),
    ("kind", "parsing: UnexpectedToken 0..4 \"kind\""),
    ("from", "parsing: UnexpectedToken 0..4 \"from\""),
    ("in", "parsing: UnexpectedToken 0..2 \"in\""),
    (",", "parsing: UnexpectedToken 0..1 \",\""),
];

fn check(cases: &[(&str, &str)]) {
    let mut wrong = String::new();
    for (script, expected) in cases {
        let found = tree(script);
        if found != *expected {
            wrong += &format!("{:?}\n  => {:?}\n", script, found);
        }
    }
    assert!(wrong.is_empty(), "\n{}", wrong);
}

#[test]
fn trees() {
    check(TREES);
}

#[test]
fn failures() {
    check(FAILURES);
}

#[test]
fn tokens_are_listed() {
    assert_eq!(tokens("a + 1").unwrap().len(), 3);
}

#[test]
fn parsing_twice_gives_the_same_tree() {
    let script = "fn f(a, if(a < 1, \"x&(a)\", f(a - 1))); cs A(B, v: {1, 2}); each(xs, i, f(i))";
    let first = tree(script);
    assert_eq!(tree(script), first);

    let mut parser = FlyLang::anonymous_parser(script, None).unwrap();
    assert_eq!(block(parser.parse().unwrap()), first);
    assert_eq!(block(parser.parse().unwrap()), first);
    assert_eq!(block(parser.reparse().unwrap()), first);
    assert_eq!(block(&parser.program().unwrap()), first);
}

#[test]
fn a_parser_of_given_tokens() {
    let module = FlyLang::anonymous_module("a + 1", None).into_rc();
    let parser = flylang::flylang::parser::Parser::new(&module, tokens("a + 1").unwrap());
    assert_eq!(block(&parser.program().unwrap()), "<(Add a 1)>");
    // Tokens of a string hold tokens of their own.
    let inner = tokens("\"&(1 + 2)\"").unwrap();
    assert_eq!(inner.len(), 1);
    let empty = flylang::flylang::parser::Parser::new(&module, vec![]);
    assert_eq!(empty.program().unwrap().len(), 0);
    assert_eq!(empty.len(), 0);
}

#[test]
fn a_failed_parse_keeps_what_was_parsed() {
    let mut parser = FlyLang::anonymous_parser("a b", None).unwrap();
    assert!(parser.parse().is_err());
    assert!(parser.reparse().is_err());
}

#[test]
fn the_sign_of_a_number_joins_the_number() {
    let parsed = FlyLang::anonymous_parser("1 + - 2", None)
        .unwrap()
        .program()
        .unwrap();
    match &parsed[0].kind {
        Instructions::ValueOf(Expressions::Operation(Operations::Numeric(add))) => {
            let right = &add.operands.1;
            assert!(matches!(
                right.kind,
                Expressions::Literal(ParsedLiterals::Number)
            ));
            assert_eq!(code(&right.location), "- 2");
            let number = flylang::flylang::lexer::tokens::representations::number::NumberRepresentation::from(&right.location).unwrap();
            assert!(number.negative);
            assert_eq!(number.integer, 2);
        }
        other => panic!("{:?}", other),
    }
    assert_eq!(tree("-x"), "<(neg x)>");
    assert_eq!(tree("- (2)"), "<(neg (group 2))>");
    assert_eq!(tree("a: - 0x1"), "<(def a - 0x1)>");
}

#[test]
fn a_node_holds_the_nodes_below_it() {
    let parsed = FlyLang::anonymous_parser("x: f(a, b + 1).c", None)
        .unwrap()
        .program()
        .unwrap();
    assert_eq!(place(&parsed[0].location), "0..16");
    match &parsed[0].kind {
        Instructions::ValueOf(Expressions::Defined(Definables::Variable(defined))) => {
            assert_eq!(place(&defined.emplacement.location), "0..1");
            assert_eq!(place(&defined.value.location), "3..16");
            match &defined.value.kind {
                Expressions::Read(read) => {
                    assert_eq!(place(&read.from.location), "3..14");
                    assert_eq!(place(&read.read.location), "15..16");
                    match &read.from.kind {
                        Expressions::ReturnOf(called) => {
                            assert_eq!(place(&called.callable.location), "3..4");
                            assert_eq!(place(&called.arguments[0].location), "5..6");
                            assert_eq!(place(&called.arguments[1].location), "8..13");
                        }
                        other => panic!("{:?}", other),
                    }
                }
                other => panic!("{:?}", other),
            }
        }
        other => panic!("{:?}", other),
    }

    let parsed = FlyLang::anonymous_parser(" if @t (a, b) else (c) ", None)
        .unwrap()
        .program()
        .unwrap();
    assert_eq!(place(&parsed[0].location), "1..22");
    match &parsed[0].kind {
        Instructions::If(found) => {
            assert_eq!(place(&found.scope_target.as_ref().unwrap().location), "4..6");
            assert_eq!(place(&found.condition.location), "8..9");
            assert_eq!(place(&found.process[0].location), "11..12");
            assert_eq!(place(&found.fallback.as_ref().unwrap().location), "14..22");
        }
        other => panic!("{:?}", other),
    }

    let parsed = FlyLang::anonymous_parser("( a )", None)
        .unwrap()
        .program()
        .unwrap();
    assert_eq!(place(&parsed[0].location), "0..5");
    match &parsed[0].kind {
        Instructions::ValueOf(Expressions::Prioritized(inner)) => {
            assert_eq!(place(&inner.location), "2..3");
        }
        other => panic!("{:?}", other),
    }
}

#[test]
fn copies_of_nodes_are_deep() {
    let script = "fn f @t (a, if(a, \"x&(a)\") else (new A({k: 1}))); #(m) x +: -1; cs C(P, fn(1), a: 1; fn m(return)); use {a} from \"./b\" in c; while(a !< 1, i, stop); each(x, {:})";
    assert_eq!(tree(script), "<(fn f @t [a] <(if a <(str \"x\" &a)> else <(new A [{k=1}])>)>); (# [m] (def x (Add x -1))); (cs C [P] (fn _ [] <(return 1)>) [(a 1)] [(m [] <(return)>)]); (use file:./b [a] c); (while (not (Less(true) a 1)) i <(stop)>); (each x _ _ <{}>)>");
    let parsed = FlyLang::anonymous_parser(script, None)
        .unwrap()
        .program()
        .unwrap();
    assert_eq!(parsed.len(), 6);
    let copy = flylang::flylang::parser::ast::instructions::duplicate_instructions(&parsed);
    assert_eq!(block(&copy), block(&parsed));
    for (node, other) in parsed.iter().zip(copy.iter()) {
        assert_eq!(place(node.location()), place(other.location()));
    }
    let node = Node::new(Word, parsed[0].location());
    assert_eq!(place(node.location()), place(&parsed[0].location));
    assert_eq!(*node.kind(), Word);
}

#[test]
fn what_is_given_priority() {
    let parsed = FlyLang::anonymous_parser("((a + 1))", None)
        .unwrap()
        .program()
        .unwrap();
    match &parsed[0].kind {
        Instructions::ValueOf(expression) => {
            assert!(matches!(expression, Expressions::Prioritized(_)));
            assert!(matches!(
                expression.unprioritized(),
                Expressions::Operation(Operations::Numeric(_))
            ));
            let plain = Expressions::Literal(ParsedLiterals::True);
            assert!(matches!(
                plain.unprioritized(),
                Expressions::Literal(ParsedLiterals::True)
            ));
        }
        other => panic!("{:?}", other),
    }
}

#[test]
fn a_scope_target_must_be_a_name_to_define_a_scope() {
    let parser = FlyLang::anonymous_parser("@a @2", None).unwrap();
    let (found, end) = ScopeTarget::parse_from(&parser, 1, BehaviorSet::new(), None).unwrap();
    assert!(matches!(found.kind, ScopeTarget::Numbered(2)));
    assert_eq!(end, 2);
    let named = ScopeTarget::parse(&parser, 0).unwrap();
    assert!(named.expect_definition().is_ok());
    let numbered = ScopeTarget::parse(&parser, 1).unwrap();
    match numbered.expect_definition() {
        Err(error) => assert_eq!(
            failure(&error),
            "UnableToParse 3..5 \"You can only define a scope by a name\""
        ),
        Ok(_) => panic!(),
    }
}

#[test]
fn rules_parse_from_a_token_on() {
    let parser = FlyLang::anonymous_parser("f(1) + 2; if(a, b); fn g(x)", None).unwrap();
    let (found, end) = Expressions::parse_from(&parser, 0, BehaviorSet::new(), None).unwrap();
    assert_eq!(expression(&found), "(Add (call f [1]) 2)");
    assert_eq!(end, 6);
    let mut lazy = BehaviorSet::new();
    lazy.insert(ParserBehaviors::Lazy);
    let (found, end) = Expressions::parse_from(&parser, 0, lazy, None).unwrap();
    assert_eq!(expression(&found), "(call f [1])");
    assert_eq!(end, 4);
    let (found, end) = Instructions::parse_from(&parser, 7, BehaviorSet::new(), None).unwrap();
    assert_eq!(instruction(&found), "(if a <b>)");
    assert_eq!(end, 13);
    let (found, end) = DefineFunction::parse_from(&parser, 14, BehaviorSet::new(), None).unwrap();
    assert_eq!(function(&found.kind), "(fn g [] <(return x)>)");
    assert_eq!(end, 19);
    assert!(DefineFunction::parse_from(&parser, 0, BehaviorSet::new(), None).is_err());
    assert!(Expressions::parse_from(&parser, 19, BehaviorSet::new(), None).is_err());
}

fn refused<T>(result: Result<T, LangError>) -> String {
    match result {
        Ok(_) => String::from("accepted"),
        Err(error) => failure(&error),
    }
}

#[test]
fn a_rule_refuses_a_token_that_it_does_not_start_with() {
    let parser = FlyLang::anonymous_parser("a + 1", None).unwrap();
    let none = BehaviorSet::new;
    let word = "UnexpectedToken 0..1 \"a\"";
    assert_eq!(refused(DefineFunction::parse_from(&parser, 0, none(), None)), word);
    assert_eq!(refused(DefineClass::parse_from(&parser, 0, none(), None)), word);
    assert_eq!(refused(If::parse_from(&parser, 0, none(), None)), word);
    assert_eq!(refused(IfFallBack::parse_from(&parser, 0, none(), None)), word);
    assert_eq!(refused(Loop::parse_from(&parser, 0, none(), None)), word);
    assert_eq!(refused(Package::parse_from(&parser, 0, none(), None)), word);
    assert_eq!(refused(Call::parse_from(&parser, 0, none(), None)), word);
    assert_eq!(refused(ReadProperty::parse_from(&parser, 0, none(), None)), word);
    assert_eq!(refused(ClassInstanciation::parse_from(&parser, 0, none(), None)), word);
    assert_eq!(refused(PrimaryObject::parse_from(&parser, 0, none(), None)), word);
    assert_eq!(refused(ModifiedDefinable::parse_from(&parser, 0, none(), None)), word);
    assert_eq!(refused(Operations::parse_from(&parser, 0, none(), None)), word);
    assert_eq!(refused(ScopeTarget::parse_from(&parser, 0, none(), None)), word);
    assert_eq!(
        refused(ScopeTarget::parse_from(&parser, 3, none(), None)),
        "Expected 5..5 Some(\"a scope target\") None"
    );
    assert_eq!(
        refused(Operations::parse_from(&parser, 3, none(), None)),
        "Expected 5..5 Some(\"an operator\") None"
    );
}
