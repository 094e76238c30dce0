use crate::flylang::errors::LangErrorView;
use crate::flylang::lexer::ranges::{CharacterRange, whitespace};
use crate::flylang::lexer::tokens::{
    BinaryOperator, Comparison, Keywords, LiteralsView, Operator, ScopeTargetView, StringItemView,
    Toggleable, TokensView, TokenView, VarDefinitionView,
};
use crate::flylang::lexer::tokens::representations::number::{number_of, NumberRepresentation};
use crate::flylang::module::ModuleView;
use crate::flylang::module::slice::{SliceView, span};
use crate::flylang::utils::scoper::Scope;
use vstd::prelude::*;

verus! {

/// Where lexing stands: the position of the next character to read, the scopes that are
/// open (the innermost last), and the tokens made so far.
pub struct LexState {
    pub at: int,
    pub scope: Seq<Scope<SliceView>>,
    pub tokens: Seq<TokenView<TokensView>>,
}

pub type Lexed = Result<LexState, LangErrorView>;

impl LexState {
    /// The state after a token of kind `kind` that runs from the cursor to `end`.
    pub open spec fn emit(self, module: ModuleView, kind: TokensView, end: int) -> LexState {
        LexState {
            at: end,
            scope: self.scope,
            tokens: self.tokens.push(TokenView { kind, location: span(module, self.at, end) }),
        }
    }

    /// The kind of the last token made, if there is one.
    pub open spec fn previous(self) -> Option<TokensView> {
        if self.tokens.len() > 0 {
            Some(self.tokens.last().kind)
        } else {
            None
        }
    }

    /// Whether the state lies strictly after position `before`, and inside the module.
    pub open spec fn after(self, module: ModuleView, before: int) -> bool {
        before < self.at <= module.code.len()
    }
}

/// An unexpected character at `at`, where `expected` was hoped for.
pub open spec fn unexpected(module: ModuleView, at: int, expected: Seq<char>) -> LangErrorView {
    LangErrorView::UnexpectedCharacter(span(module, at, at + 1), Some(expected))
}

// ------ Numbers
/// How far the reading of a number has come, and what may still follow.
pub struct NumberScan {
    pub at: int,
    pub allow_float: bool,
    pub allow_base_change: bool,
    pub class: CharacterRange,
    /// Nothing but `0` and `-` was read so far.
    pub plain: bool,
}

/// What one character does to a number that is being read.
pub enum NumberStep {
    /// The number ends before the character.
    Stop,
    /// The character cannot stand here; the class that was expected instead.
    Fail(Seq<char>),
    /// The character belongs to the number. With `follow`, a digit must come right after it,
    /// and belongs to the number too.
    Take { follow: bool, then: NumberScan },
}

/// Whether a number may begin with a sign or hold a decimal point after a token of kind
/// `previous`: at the start, after `,`, `-`, a binary operator, a comparison, `(` and a
/// variable definition mark.
pub open spec fn sign_allowed_after(previous: Option<TokensView>) -> bool {
    match previous {
        None => true,
        Some(TokensView::ArgSeparator) => true,
        Some(TokensView::Operator(Operator::Substract)) => true,
        Some(TokensView::BinaryOperator(_)) => true,
        Some(TokensView::Comparison(_)) => true,
        Some(TokensView::Block(Toggleable::Openning)) => true,
        Some(TokensView::VarDef(_)) => true,
        _ => false,
    }
}

/// What the character `c` does to the number read so far. `empty` says that nothing was
/// read yet, `permitted` that the token before lets a number begin with a sign or a
/// decimal point, `digit_follows` that a digit stands right after `c`.
/// A number in base ten holds one decimal point at most, and ends before a second one.
/// A number in another base holds none. A decimal point inside a number comes before a
/// digit: where the token before permits, anything else after it is refused; elsewhere,
/// the number ends before a decimal point that no digit follows.
pub open spec fn number_step(
    c: char,
    empty: bool,
    permitted: bool,
    digit_follows: bool,
    scan: NumberScan,
) -> NumberStep {
    if c == '.' {
        if !scan.allow_float {
            if scan.class == CharacterRange::Decimal {
                NumberStep::Stop
            } else {
                NumberStep::Fail("[0-9_]"@)
            }
        } else if !permitted && empty {
            NumberStep::Fail("[0-9_]"@)
        } else if !permitted && !digit_follows {
            NumberStep::Stop
        } else {
            NumberStep::Take { follow: true, then: NumberScan { allow_float: false, ..scan } }
        }
    } else if c == '_' {
        if empty {
            NumberStep::Fail("[0-9.]"@)
        } else {
            NumberStep::Take { follow: false, then: scan }
        }
    } else if c == '-' {
        if !empty {
            NumberStep::Stop
        } else if !permitted {
            NumberStep::Fail("[0-9]"@)
        } else {
            NumberStep::Take { follow: true, then: scan }
        }
    } else if scan.allow_base_change && (c == 'b' || c == 'x') {
        if empty || !scan.plain {
            NumberStep::Fail("[0-9._-]"@)
        } else {
            NumberStep::Take {
                follow: true,
                then: NumberScan {
                    allow_float: false,
                    allow_base_change: false,
                    class: if c == 'b' {
                        CharacterRange::Binary
                    } else {
                        CharacterRange::Hexadecimal
                    },
                    ..scan
                },
            }
        }
    } else if whitespace(c) || CharacterRange::Ponctuation.holds(c) {
        NumberStep::Stop
    } else if !scan.class.holds(c) {
        NumberStep::Fail("[0-9._]"@)
    } else {
        NumberStep::Take { follow: false, then: scan }
    }
}

/// Whether a digit of the class that the number is read in stands right after `at`.
pub open spec fn digit_after(module: ModuleView, at: int, scan: NumberScan) -> bool {
    at + 1 < module.code.len() && scan.class.holds(module.code[at + 1])
}

/// Whether `c` leaves the number made of `0` and `-` only.
pub open spec fn keeps_plain(c: char) -> bool {
    c == '0' || c == '-'
}

/// Where the number that begins at `start` ends, or why it is no number. `scan` says how
/// far the reading has come.
#[verifier::opaque]
pub open spec fn scan_number(module: ModuleView, start: int, permitted: bool, scan: NumberScan)
    -> Result<int, LangErrorView>
    decreases module.code.len() - scan.at,
{
    let code = module.code;
    if scan.at < 0 || scan.at >= code.len() {
        Ok(scan.at)
    } else {
        match number_step(
            code[scan.at],
            scan.at == start,
            permitted,
            digit_after(module, scan.at, scan),
            scan,
        ) {
            NumberStep::Stop => Ok(scan.at),
            NumberStep::Fail(expected) => Err(unexpected(module, scan.at, expected)),
            NumberStep::Take { follow, then } => if follow {
                if scan.at + 1 >= code.len() {
                    Err(unexpected(module, scan.at, ".[0-9]"@))
                } else if !then.class.holds(code[scan.at + 1]) {
                    Err(unexpected(module, scan.at + 1, "[0-9]"@))
                } else {
                    scan_number(
                        module,
                        start,
                        permitted,
                        NumberScan {
                            at: scan.at + 2,
                            plain: scan.plain && keeps_plain(code[scan.at]) && keeps_plain(
                                code[scan.at + 1],
                            ),
                            ..then
                        },
                    )
                }
            } else {
                scan_number(
                    module,
                    start,
                    permitted,
                    NumberScan {
                        at: scan.at + 1,
                        plain: scan.plain && keeps_plain(code[scan.at]),
                        ..then
                    },
                )
            },
        }
    }
}

/// The reading of a number that begins at `start`, before anything is read.
pub open spec fn number_start(start: int) -> NumberScan {
    NumberScan {
        at: start,
        allow_float: true,
        allow_base_change: true,
        class: CharacterRange::Decimal,
        plain: true,
    }
}

/// The number that begins at the cursor.
#[verifier::opaque]
pub open spec fn lex_number(module: ModuleView, state: LexState) -> Lexed {
    match scan_number(
        module,
        state.at,
        sign_allowed_after(state.previous()),
        number_start(state.at),
    ) {
        Ok(end) => Ok(state.emit(module, TokensView::Literal(LiteralsView::Number), end)),
        Err(error) => Err(error),
    }
}

// ------ Words
/// The first position from `at` on that holds no variable character.
pub open spec fn word_end(code: Seq<char>, at: int) -> int
    decreases code.len() - at,
{
    if 0 <= at < code.len() && CharacterRange::VariableCharacter.holds(code[at]) {
        word_end(code, at + 1)
    } else {
        at
    }
}

/// What a word is: a keyword, a boolean, or a plain word.
pub open spec fn word_kind(lexeme: Seq<char>) -> TokensView {
    if lexeme == "fn"@ {
        TokensView::Keyword(Keywords::Fn)
    } else if lexeme == "cs"@ {
        TokensView::Keyword(Keywords::Cs)
    } else if lexeme == "kind"@ {
        TokensView::Keyword(Keywords::Kind)
    } else if lexeme == "new"@ {
        TokensView::Keyword(Keywords::New)
    } else if lexeme == "while"@ {
        TokensView::Keyword(Keywords::While)
    } else if lexeme == "until"@ {
        TokensView::Keyword(Keywords::Until)
    } else if lexeme == "each"@ {
        TokensView::Keyword(Keywords::Each)
    } else if lexeme == "return"@ {
        TokensView::Keyword(Keywords::Return)
    } else if lexeme == "stop"@ {
        TokensView::Keyword(Keywords::Stop)
    } else if lexeme == "pass"@ {
        TokensView::Keyword(Keywords::Pass)
    } else if lexeme == "if"@ {
        TokensView::Keyword(Keywords::If)
    } else if lexeme == "else"@ {
        TokensView::Keyword(Keywords::Else)
    } else if lexeme == "true"@ {
        TokensView::Literal(LiteralsView::True)
    } else if lexeme == "false"@ {
        TokensView::Literal(LiteralsView::False)
    } else if lexeme == "use"@ {
        TokensView::Keyword(Keywords::Use)
    } else if lexeme == "in"@ {
        TokensView::Keyword(Keywords::In)
    } else if lexeme == "from"@ {
        TokensView::Keyword(Keywords::From)
    } else {
        TokensView::Literal(LiteralsView::Word)
    }
}

// ------ Comments
/// The position after the first line break from `at` on, or the end of the code.
pub open spec fn line_comment_end(code: Seq<char>, at: int) -> int
    decreases code.len() - at,
{
    if at < 0 || at >= code.len() {
        at
    } else if code[at] == '\n' {
        at + 1
    } else {
        line_comment_end(code, at + 1)
    }
}

/// The position after the first `||` from `at` on, or the end of the code.
pub open spec fn block_comment_end(code: Seq<char>, at: int) -> int
    decreases code.len() - at,
{
    if at < 0 || at >= code.len() {
        at
    } else if at + 1 < code.len() && code[at] == '|' && code[at + 1] == '|' {
        at + 2
    } else {
        block_comment_end(code, at + 1)
    }
}

/// Where the comment that begins with the `|` at `at` ends: `||` opens a comment that runs
/// to the next `||`, a single `|` one that runs to the end of the line.
pub open spec fn comment_end(code: Seq<char>, at: int) -> int {
    if at + 1 < code.len() && code[at + 1] == '|' {
        block_comment_end(code, at + 2)
    } else {
        line_comment_end(code, at + 1)
    }
}

// ------ Scope targets
/// The first position from `at` on that holds no `<`.
pub open spec fn angle_run_end(code: Seq<char>, at: int) -> int
    decreases code.len() - at,
{
    if 0 <= at < code.len() && code[at] == '<' {
        angle_run_end(code, at + 1)
    } else {
        at
    }
}

/// What a scope target may be made of, as diagnostics say it.
pub open spec fn target_expectation() -> Seq<char> {
    "multiple '<', an integer < 0 or a word"@
}

/// The scope target that the token `named`, read right after the `@` at `at`, makes, or why
/// it makes none.
pub open spec fn target_of(module: ModuleView, at: int, named: TokenView<TokensView>) -> Result<
    ScopeTargetView,
    LangErrorView,
> {
    let lexeme = named.location;
    match named.kind {
        TokensView::Literal(LiteralsView::Word)
        | TokensView::Literal(LiteralsView::True)
        | TokensView::Literal(LiteralsView::False)
        | TokensView::Keyword(_) => Ok(ScopeTargetView::Named(lexeme.code())),
        TokensView::Literal(LiteralsView::Number) => match number_of(
            module.code,
            lexeme.start,
            lexeme.end,
        ) {
            Some(number) => if NumberRepresentation::fits(number) && !number.negative
                && number.decimal is None && number.integer != 0 && number.integer
                <= usize::MAX {
                Ok(ScopeTargetView::Numbered(number.integer))
            } else {
                Err(
                    LangErrorView::Expected {
                        after: span(module, at, at + 1),
                        expected: Some(target_expectation()),
                        but_found: Some("a negative and/or decimal-based number"@),
                    },
                )
            },
            None => Err(
                LangErrorView::Expected {
                    after: span(module, at, at + 1),
                    expected: Some(target_expectation()),
                    but_found: Some("a negative and/or decimal-based number"@),
                },
            ),
        },
        _ => Err(
            LangErrorView::Expected {
                after: span(module, at, at + 1),
                expected: Some(target_expectation()),
                but_found: Some(lexeme.code()),
            },
        ),
    }
}

// ------ Strings
/// The character that `\` and `c` stand for in a string.
pub open spec fn unescape(c: char) -> char {
    if c == 't' {
        '\t'
    } else if c == 'b' {
        '\u{8}'
    } else if c == 'n' {
        '\n'
    } else if c == 'r' {
        '\r'
    } else if c == 'f' {
        '\u{c}'
    } else if c == 's' {
        ' '
    } else {
        c
    }
}

/// How far the reading of a string has come: the position of the next character, where
/// the literal part that is being read began, its text so far, and the parts before it.
pub struct StringScan {
    pub at: int,
    pub from: int,
    pub text: Seq<char>,
    pub parts: Seq<TokenView<StringItemView>>,
}

impl StringScan {
    /// The parts, with the literal part that is being read if it holds anything.
    pub open spec fn flush(self, module: ModuleView) -> Seq<TokenView<StringItemView>> {
        if self.text.len() > 0 {
            self.parts.push(
                TokenView {
                    kind: StringItemView::Literal(self.text),
                    location: span(module, self.from, self.at),
                },
            )
        } else {
            self.parts
        }
    }
}

/// What reading a string gives: where it ends, its parts, and the scopes that are open
/// after it.
pub struct StringEnd {
    pub end: int,
    pub parts: Seq<TokenView<StringItemView>>,
    pub scope: Seq<Scope<SliceView>>,
}

/// What reading an expression inside a string gives: where it ends, its tokens, and the
/// scopes that are open after it.
pub struct ExpressionEnd {
    pub end: int,
    pub tokens: Seq<TokenView<TokensView>>,
    pub scope: Seq<Scope<SliceView>>,
}

/// Steps through the expression inside a string until no more than `outer` scopes are open.
#[verifier::opaque]
pub open spec fn lex_expression_run(module: ModuleView, outer: int, state: LexState) -> Lexed
    decreases module.code.len() - state.at, 6int,
{
    if state.scope.len() <= outer {
        Ok(state)
    } else if state.at < 0 || state.at >= module.code.len() {
        Err(LangErrorView::UnclosedScope(state.scope.last()))
    } else {
        match lex_step(module, state) {
            Err(error) => Err(error),
            Ok(next) => if next.after(module, state.at) {
                lex_expression_run(module, outer, next)
            } else {
                Ok(next)
            },
        }
    }
}

/// The expression that `&(` opens at `at` inside a string: its tokens, read as those of a
/// module on their own, up to the `)` that closes it.
#[verifier::opaque]
pub open spec fn lex_expression(module: ModuleView, at: int, scope: Seq<Scope<SliceView>>)
    -> Result<ExpressionEnd, LangErrorView>
    decreases module.code.len() - at, 0int,
{
    if at < 0 || at + 2 > module.code.len() {
        Err(LangErrorView::UnclosedScope(scope.last()))
    } else {
        match lex_expression_run(
            module,
            scope.len() as int,
            LexState {
                at: at + 2,
                scope: scope.push(Scope::Block(span(module, at, at + 2))),
                tokens: Seq::empty(),
            },
        ) {
            Err(error) => Err(error),
            Ok(last) => Ok(
                ExpressionEnd { end: last.at, tokens: last.tokens.drop_last(), scope: last.scope },
            ),
        }
    }
}

/// The rest of a string whose delimiter is `toggler`, from where `scan` stands.
#[verifier::opaque]
pub open spec fn lex_string_parts(
    module: ModuleView,
    toggler: char,
    scope: Seq<Scope<SliceView>>,
    scan: StringScan,
) -> Result<StringEnd, LangErrorView>
    decreases module.code.len() - scan.at, 1int,
{
    let code = module.code;
    if scan.at < 0 || scan.at >= code.len() {
        Err(LangErrorView::UnclosedScope(scope.last()))
    } else {
        let c = code[scan.at];
        if c == toggler {
            if scope.last() is String {
                Ok(
                    StringEnd {
                        end: scan.at + 1,
                        parts: scan.flush(module),
                        scope: scope.drop_last(),
                    },
                )
            } else {
                Err(
                    LangErrorView::InvalidScopeEnding(
                        span(module, scan.at, scan.at + 1),
                        scope.last(),
                    ),
                )
            }
        } else if c == '&' && toggler == '"' {
            if scan.at + 1 < code.len() && code[scan.at + 1] == '(' {
                match lex_expression(module, scan.at, scope) {
                    Err(error) => Err(error),
                    Ok(inner) => if scan.at < inner.end <= code.len() {
                        lex_string_parts(
                            module,
                            toggler,
                            inner.scope,
                            StringScan {
                                at: inner.end,
                                from: inner.end,
                                text: Seq::empty(),
                                parts: scan.flush(module).push(
                                    TokenView {
                                        kind: StringItemView::Expression(inner.tokens),
                                        location: span(module, scan.at, inner.end),
                                    },
                                ),
                            },
                        )
                    } else {
                        Err(LangErrorView::UnclosedScope(scope.last()))
                    },
                }
            } else {
                lex_string_parts(
                    module,
                    toggler,
                    scope,
                    StringScan { at: scan.at + 1, text: scan.text.push('&'), ..scan },
                )
            }
        } else if c == '\\' {
            if scan.at + 1 >= code.len() {
                Err(LangErrorView::UnclosedScope(scope.last()))
            } else {
                lex_string_parts(
                    module,
                    toggler,
                    scope,
                    StringScan {
                        at: scan.at + 2,
                        text: scan.text.push(unescape(code[scan.at + 1])),
                        ..scan
                    },
                )
            }
        } else {
            lex_string_parts(
                module,
                toggler,
                scope,
                StringScan { at: scan.at + 1, text: scan.text.push(c), ..scan },
            )
        }
    }
}

/// The state after the string that begins at the cursor of `state`, given what reading its
/// parts gave.
pub open spec fn string_token(
    module: ModuleView,
    state: LexState,
    found: Result<StringEnd, LangErrorView>,
) -> Lexed {
    match found {
        Err(error) => Err(error),
        Ok(found) => Ok(
            LexState {
                at: found.end,
                scope: found.scope,
                tokens: state.tokens.push(
                    TokenView {
                        kind: TokensView::Literal(LiteralsView::String(found.parts)),
                        location: span(module, state.at, found.end),
                    },
                ),
            },
        ),
    }
}

/// The string that the quote at the cursor opens.
#[verifier::opaque]
pub open spec fn lex_string(module: ModuleView, state: LexState) -> Lexed
    decreases module.code.len() - state.at, 2int,
{
    if state.at < 0 || state.at >= module.code.len() {
        Ok(state)
    } else {
        string_token(
            module,
            state,
            lex_string_parts(
                module,
                module.code[state.at],
                state.scope.push(Scope::String(span(module, state.at, state.at + 1))),
                StringScan {
                    at: state.at + 1,
                    from: state.at + 1,
                    text: Seq::empty(),
                    parts: Seq::empty(),
                },
            ),
        )
    }
}

// ------ Literals
/// The literal that begins at the cursor: a number, a string, or a word.
#[verifier::opaque]
pub open spec fn lex_literal(module: ModuleView, state: LexState) -> Lexed
    decreases module.code.len() - state.at, 3int,
{
    let code = module.code;
    if state.at < 0 || state.at >= code.len() {
        Ok(state)
    } else {
        let c = code[state.at];
        if CharacterRange::Decimal.holds(c) {
            lex_number(module, state)
        } else if c == '"' || c == '\'' {
            lex_string(module, state)
        } else if CharacterRange::VariableCharacter.holds(c)
            && !CharacterRange::BannedFirstVariableCharacter.holds(c) {
            let end = word_end(code, state.at + 1);
            Ok(state.emit(module, word_kind(code.subrange(state.at, end)), end))
        } else {
            Err(LangErrorView::UnknownCharacter(span(module, state.at, state.at + 1)))
        }
    }
}

// ------ Steps
/// The state after the delimiter at the cursor closes a scope of the kind of `wanted`, and
/// `kind` is made of it.
pub open spec fn close_scope(
    module: ModuleView,
    state: LexState,
    wanted: Scope<()>,
    kind: TokensView,
) -> Lexed {
    let here = span(module, state.at, state.at + 1);
    if state.scope.len() == 0 {
        Err(LangErrorView::UnexpectedCharacter(here, None))
    } else if state.scope.last().same_kind(wanted) {
        Ok(
            LexState {
                at: state.at + 1,
                scope: state.scope.drop_last(),
                tokens: state.tokens.push(TokenView { kind, location: here }),
            },
        )
    } else {
        Err(LangErrorView::InvalidScopeEnding(here, state.scope.last()))
    }
}

/// The state after the delimiter at the cursor opens the scope `opened`, and `kind` is made
/// of it.
pub open spec fn open_scope(
    module: ModuleView,
    state: LexState,
    opened: Scope<SliceView>,
    kind: TokensView,
) -> LexState {
    LexState {
        at: state.at + 1,
        scope: state.scope.push(opened),
        tokens: state.tokens.push(
            TokenView { kind, location: span(module, state.at, state.at + 1) },
        ),
    }
}

/// Whether the character after the cursor is `c`.
pub open spec fn followed_by(module: ModuleView, state: LexState, c: char) -> bool {
    state.at + 1 < module.code.len() && module.code[state.at + 1] == c
}

/// The state after the `:` or `::` at the cursor. After an operator, `:` folds the operator
/// into the mark, and takes its place among the tokens.
#[verifier::opaque]
pub open spec fn lex_definition(module: ModuleView, state: LexState) -> Lexed {
    let constant = followed_by(module, state, ':');
    let end = if constant {
        state.at + 2
    } else {
        state.at + 1
    };
    match state.previous() {
        Some(TokensView::Operator(operator)) => if constant {
            Err(
                LangErrorView::UnexpectedCharacter(
                    span(module, state.at, end),
                    Some("<operator>: ..."@),
                ),
            )
        } else {
            let folded = state.tokens.last().location;
            Ok(
                LexState {
                    at: end,
                    scope: state.scope,
                    tokens: state.tokens.drop_last().push(
                        TokenView {
                            kind: TokensView::VarDef(
                                VarDefinitionView::WithOperation(
                                    TokenView { kind: operator, location: folded },
                                ),
                            ),
                            location: folded.union(span(module, state.at, end)),
                        },
                    ),
                },
            )
        },
        _ => Ok(
            state.emit(
                module,
                TokensView::VarDef(
                    if constant {
                        VarDefinitionView::Constant
                    } else {
                        VarDefinitionView::Normal
                    },
                ),
                end,
            ),
        ),
    }
}

/// The state after the `@` at the cursor and the target that follows it.
#[verifier::opaque]
pub open spec fn lex_target(module: ModuleView, state: LexState) -> Lexed
    decreases module.code.len() - state.at, 4int,
{
    let code = module.code;
    if state.at < 0 || state.at >= code.len() {
        Ok(state)
    } else {
        let run = angle_run_end(code, state.at + 1);
        if run > state.at + 1 {
            Ok(
                state.emit(
                    module,
                    TokensView::ScopeTarget(
                        ScopeTargetView::Numbered((run - state.at - 1) as nat),
                    ),
                    run,
                ),
            )
        } else if state.at + 1 >= code.len() {
            Err(
                LangErrorView::Expected {
                    after: span(module, state.at, state.at + 1),
                    expected: Some(target_expectation()),
                    but_found: None,
                },
            )
        } else {
            match lex_literal(module, LexState { at: state.at + 1, ..state }) {
                Err(error) => Err(error),
                Ok(named) => match target_of(module, state.at, named.tokens.last()) {
                    Err(error) => Err(error),
                    Ok(target) => Ok(
                        LexState {
                            at: named.at,
                            scope: named.scope,
                            tokens: state.tokens.push(
                                TokenView {
                                    kind: TokensView::ScopeTarget(target),
                                    location: span(module, state.at, named.at),
                                },
                            ),
                        },
                    ),
                },
            }
        }
    }
}

/// The state after what begins at the cursor: a blank or a comment, which is passed over,
/// or a token.
#[verifier::opaque]
pub open spec fn lex_step(module: ModuleView, state: LexState) -> Lexed
    decreases module.code.len() - state.at, 5int,
{
    let code = module.code;
    if state.at < 0 || state.at >= code.len() {
        Ok(state)
    } else {
        let c = code[state.at];
        let here = span(module, state.at, state.at + 1);
        if whitespace(c) {
            Ok(LexState { at: state.at + 1, ..state })
        } else if c == '!' {
            Ok(state.emit(module, TokensView::Not, state.at + 1))
        } else if c == '(' {
            Ok(
                open_scope(
                    module,
                    state,
                    Scope::Block(here),
                    TokensView::Block(Toggleable::Openning),
                ),
            )
        } else if c == ')' {
            close_scope(module, state, Scope::Block(()), TokensView::Block(Toggleable::Closing))
        } else if c == '{' {
            Ok(
                open_scope(
                    module,
                    state,
                    Scope::Object(here),
                    TokensView::Object(Toggleable::Openning),
                ),
            )
        } else if c == '}' {
            close_scope(
                module,
                state,
                Scope::Object(()),
                TokensView::Object(Toggleable::Closing),
            )
        } else if c == '.' {
            match lex_number(module, state) {
                Ok(next) => Ok(next),
                Err(_) => Ok(state.emit(module, TokensView::Accessor, state.at + 1)),
            }
        } else if c == '-' {
            match lex_number(module, state) {
                Ok(next) => Ok(next),
                Err(_) => Ok(
                    state.emit(module, TokensView::Operator(Operator::Substract), state.at + 1),
                ),
            }
        } else if c == '+' {
            Ok(state.emit(module, TokensView::Operator(Operator::Add), state.at + 1))
        } else if c == '*' {
            if followed_by(module, state, '*') {
                Ok(state.emit(module, TokensView::Operator(Operator::Power), state.at + 2))
            } else {
                Ok(state.emit(module, TokensView::Operator(Operator::Multiply), state.at + 1))
            }
        } else if c == '/' {
            if followed_by(module, state, '/') {
                Ok(
                    state.emit(
                        module,
                        TokensView::Operator(Operator::EuclidianDivision),
                        state.at + 2,
                    ),
                )
            } else {
                Ok(state.emit(module, TokensView::Operator(Operator::Divide), state.at + 1))
            }
        } else if c == '@' {
            lex_target(module, state)
        } else if c == '%' {
            Ok(state.emit(module, TokensView::Operator(Operator::Modulo), state.at + 1))
        } else if c == ';' {
            if state.previous() == Some(TokensView::EndOfInstruction) {
                Ok(LexState { at: state.at + 1, ..state })
            } else {
                Ok(state.emit(module, TokensView::EndOfInstruction, state.at + 1))
            }
        } else if c == ',' {
            Ok(state.emit(module, TokensView::ArgSeparator, state.at + 1))
        } else if c == '#' {
            Ok(state.emit(module, TokensView::Modifier, state.at + 1))
        } else if c == ':' {
            lex_definition(module, state)
        } else if c == '&' {
            Ok(
                state.emit(
                    module,
                    TokensView::BinaryOperator(BinaryOperator::And),
                    state.at + 1,
                ),
            )
        } else if c == '?' {
            Ok(
                state.emit(module, TokensView::BinaryOperator(BinaryOperator::Or), state.at + 1),
            )
        } else if c == '~' {
            Ok(
                state.emit(
                    module,
                    TokensView::BinaryOperator(BinaryOperator::Xor),
                    state.at + 1,
                ),
            )
        } else if c == '=' {
            Ok(state.emit(module, TokensView::Comparison(Comparison::Equal), state.at + 1))
        } else if c == '<' {
            if followed_by(module, state, '=') {
                Ok(
                    state.emit(
                        module,
                        TokensView::Comparison(Comparison::Less(false)),
                        state.at + 2,
                    ),
                )
            } else {
                Ok(
                    state.emit(
                        module,
                        TokensView::Comparison(Comparison::Less(true)),
                        state.at + 1,
                    ),
                )
            }
        } else if c == '>' {
            if followed_by(module, state, '=') {
                Ok(
                    state.emit(
                        module,
                        TokensView::Comparison(Comparison::Greater(false)),
                        state.at + 2,
                    ),
                )
            } else {
                Ok(
                    state.emit(
                        module,
                        TokensView::Comparison(Comparison::Greater(true)),
                        state.at + 1,
                    ),
                )
            }
        } else if c == '|' {
            Ok(LexState { at: comment_end(code, state.at), ..state })
        } else {
            lex_literal(module, state)
        }
    }
}

/// Steps from `state` to the end of the module.
#[verifier::opaque]
pub open spec fn lex_run(module: ModuleView, state: LexState) -> Lexed
    decreases module.code.len() - state.at,
{
    if state.at < 0 || state.at >= module.code.len() {
        Ok(state)
    } else {
        match lex_step(module, state) {
            Err(error) => Err(error),
            Ok(next) => if next.after(module, state.at) {
                lex_run(module, next)
            } else {
                Ok(next)
            },
        }
    }
}

/// The tokens that lexing gives from `state` on: those of `lex_run`, unless a scope is
/// still open at the end of the module.
pub open spec fn lex_from(module: ModuleView, state: LexState) -> Result<
    Seq<TokenView<TokensView>>,
    LangErrorView,
> {
    match lex_run(module, state) {
        Err(error) => Err(error),
        Ok(last) => if last.scope.len() > 0 {
            Err(LangErrorView::UnclosedScope(last.scope.last()))
        } else {
            Ok(last.tokens)
        },
    }
}

/// The tokens of a module.
pub open spec fn lex(module: ModuleView) -> Result<Seq<TokenView<TokensView>>, LangErrorView> {
    lex_from(module, LexState { at: 0, scope: Seq::empty(), tokens: Seq::empty() })
}

/// Once the steps have reached the end of the module, lexing gives tokens just where no
/// scope is left open.
pub proof fn lemma_no_scope_left_open(module: ModuleView, state: LexState)
    ensures
        lex_run(module, state) matches Ok(last) ==> (lex_from(module, state) is Ok
            <==> last.scope.len() == 0),
        lex_run(module, state) is Err ==> lex_from(module, state) is Err,
{
}

} // verus!
