use crate::flylang::errors::{LangError, LangErrorView, LangResult};
use crate::flylang::lexer::errors::{
    InvalidScopeEnding, UnclosedScope, UnexpectedCharacter, UnknownCharacter,
};
use crate::flylang::lexer::ranges::{CharacterRange, in_ranges, is_whitespace};
use crate::flylang::lexer::rules::{
    angle_run_end, block_comment_end, close_scope, comment_end, followed_by, lex_definition,
    lex_expression, lex_expression_run, lex_from, lex_literal, lex_number, lex_run, lex_step,
    lex_string, lex_string_parts, lex_target, LexState, line_comment_end, number_start, number_step,
    NumberScan, NumberStep, scan_number, sign_allowed_after, string_token, StringEnd, StringScan,
    word_end, word_kind,
};
use crate::flylang::lexer::tokens::{
    BinaryOperator, Comparison, Keywords, Literals, Operator, part_view, part_views, ScopeTarget,
    StringItem, StringItemView, Toggleable, Token, token_view, token_views, Tokens, TokenView,
    VarDefinition,
};
use crate::flylang::lexer::tokens::representations::number::NumberRepresentation;
use crate::flylang::module::{characters, LangModule, ModuleView, share};
use crate::flylang::module::slice::{LangModuleSlice, SliceView, span};
use crate::flylang::parser::errors::Expected;
use crate::flylang::utils::analyser::Analyser;
use crate::flylang::utils::scoper::Scope;
use std::rc::Rc;
use vstd::prelude::*;
use vstd::string::StrSliceExecFns;

pub mod errors;
pub mod layout;
pub mod ranges;
pub mod rules;
pub mod tokens;

verus! {

/// The view of a scope marker.
pub open spec fn scope_view(scope: Scope<LangModuleSlice>) -> Scope<SliceView> {
    scope.with(scope.spec_data()@)
}

/// The views of the scope markers of `scopes`, in order.
pub open spec fn scope_views(scopes: Seq<Scope<LangModuleSlice>>) -> Seq<Scope<SliceView>> {
    scopes.map_values(|scope: Scope<LangModuleSlice>| scope_view(scope))
}

/// What a lexer is, mathematically: its module, where the token that is being read began,
/// and where lexing stands.
pub struct LexerView {
    pub module: ModuleView,
    pub start: int,
    pub state: LexState,
}

impl LexerView {
    /// The lexer is between two tokens, at `state`.
    pub open spec fn resting(module: ModuleView, state: LexState) -> LexerView {
        LexerView { module, start: state.at, state }
    }
}

/// Convert a module to a list of tokens
#[derive(Debug)]
pub struct Lexer {
    module: Rc<LangModule>,
    scope: Vec<Scope<LangModuleSlice>>,
    analyser: Analyser<char>,
    lexified: Vec<Token<Tokens>>,
}

/// Adds `c` at the end of `text`, by `String::push`. That the text then is what it was,
/// followed by `c`, is what the documentation of `String::push` says: it is not proved here.
#[verifier::external_body]
fn push_char(text: &mut String, c: char)
    ensures
        final(text)@ == old(text)@.push(c),
{
    text.push(c)
}

proof fn lemma_token_views_push(tokens: Seq<Token<Tokens>>, token: Token<Tokens>)
    ensures
        token_views(tokens.push(token)) == token_views(tokens).push(token_view(token)),
{
    assert(token_views(tokens.push(token)) =~= token_views(tokens).push(token_view(token)));
}

proof fn lemma_token_views_drop_last(tokens: Seq<Token<Tokens>>)
    requires
        tokens.len() > 0,
    ensures
        token_views(tokens.drop_last()) == token_views(tokens).drop_last(),
        token_views(tokens).last() == token_view(tokens.last()),
{
    assert(token_views(tokens.drop_last()) =~= token_views(tokens).drop_last());
}

proof fn lemma_part_views_push(parts: Seq<Token<StringItem>>, part: Token<StringItem>)
    ensures
        part_views(parts.push(part)) == part_views(parts).push(part_view(part)),
{
    assert(part_views(parts.push(part)) =~= part_views(parts).push(part_view(part)));
}

proof fn lemma_scope_views_push(scopes: Seq<Scope<LangModuleSlice>>, scope: Scope<LangModuleSlice>)
    ensures
        scope_views(scopes.push(scope)) == scope_views(scopes).push(scope_view(scope)),
{
    assert(scope_views(scopes.push(scope)) =~= scope_views(scopes).push(scope_view(scope)));
}

proof fn lemma_scope_views_drop_last(scopes: Seq<Scope<LangModuleSlice>>)
    requires
        scopes.len() > 0,
    ensures
        scope_views(scopes.drop_last()) == scope_views(scopes).drop_last(),
        scope_views(scopes).last() == scope_view(scopes.last()),
{
    assert(scope_views(scopes.drop_last()) =~= scope_views(scopes).drop_last());
}

impl Lexer {
    /// The lexer reads the characters of its own module, and its tokens lie in that module.
    pub closed spec fn sound(&self) -> bool {
        &&& self.analyser@.stream == self.module@.code
        &&& 0 <= self.analyser@.start <= self.analyser@.end <= self.analyser@.stream.len()
        &&& forall|i: int|
            0 <= i < self.lexified@.len() ==> (#[trigger] self.lexified@[i]).location@.module
                == self.module@
    }

    /// The lexer is sound, and stands between two tokens.
    pub open spec fn wf(&self) -> bool {
        self.sound() && self@.start == self@.state.at
    }

    /// What the lexer is, mathematically.
    pub closed spec fn view(&self) -> LexerView {
        LexerView {
            module: self.module@,
            start: self.analyser@.start,
            state: LexState {
                at: self.analyser@.end,
                scope: scope_views(self.scope@),
                tokens: token_views(self.lexified@),
            },
        }
    }

    /// Create a new `Lexer`, which stands at the beginning of the module
    pub fn new(module: &Rc<LangModule>) -> (r: Self)
        ensures
            r.wf(),
            r@ == LexerView::resting(
                module@,
                LexState { at: 0, scope: Seq::empty(), tokens: Seq::empty() },
            ),
    {
        let r = Self {
            module: share(module),
            scope: Vec::new(),
            analyser: Analyser::new(characters(module.code())),
            lexified: Vec::new(),
        };
        assert(scope_views(r.scope@) =~= Seq::empty());
        assert(token_views(r.lexified@) =~= Seq::empty());
        r
    }

    /// Get the lexer's module
    pub fn module(&self) -> (r: &Rc<LangModule>)
        requires
            self.sound(),
        ensures
            r@ == self@.module,
    {
        &self.module
    }

    /// The tokens made so far.
    pub fn tokens(&self) -> (r: &Vec<Token<Tokens>>)
        requires
            self.sound(),
        ensures
            token_views(r@) == self@.state.tokens,
    {
        &self.lexified
    }

    /// The number of characters of the module, and the position of the cursor.
    fn bounds(&self) -> (r: (usize, usize))
        requires
            self.sound(),
        ensures
            r.0 == self@.module.code.len(),
            r.1 == self@.state.at,
            self@.start <= r.1 <= r.0,
            0 <= self@.start,
    {
        let range = self.analyser.range();
        (self.module.len(), range.end)
    }

    /// The character at position `at` of the module.
    fn char_at(&self, at: usize) -> (r: char)
        requires
            self.sound(),
            at < self@.module.code.len(),
        ensures
            r == self@.module.code[at as int],
    {
        self.module.char_at(at)
    }

    /// The slice of the module from `start` to `end`.
    fn slice(&self, start: usize, end: usize) -> (r: LangModuleSlice)
        requires
            self.sound(),
            start <= end <= self@.module.code.len(),
        ensures
            r@ == span(self@.module, start as int, end as int),
    {
        LangModuleSlice::new_with(&self.module, start..end)
    }

    /// The slice that the token being read covers so far.
    fn get_slice(&self) -> (r: LangModuleSlice)
        requires
            self.sound(),
        ensures
            r@ == span(self@.module, self@.start, self@.state.at),
            0 <= self@.start <= self@.state.at <= self@.module.code.len(),
    {
        let range = self.analyser.range();
        LangModuleSlice::new_with(&self.module, range)
    }

    /// Moves the cursor to `end`, and makes what lies between `start` and `end` the token
    /// being read.
    fn stretch(&mut self, start: usize, end: usize)
        requires
            old(self).sound(),
            start <= end <= old(self)@.module.code.len(),
        ensures
            final(self).sound(),
            final(self)@ == (LexerView {
                module: old(self)@.module,
                start: start as int,
                state: LexState { at: end as int, ..old(self)@.state },
            }),
    {
        self.analyser.set(start..end);
    }

    /// Validate the current slice (`get_slice` method) with the given token.
    /// This inserts the created token to the lexified vector.
    fn validate_analyser(&mut self, kind: Tokens)
        requires
            old(self).sound(),
        ensures
            final(self).sound(),
            final(self)@ == LexerView::resting(
                old(self)@.module,
                LexState {
                    at: old(self)@.state.at,
                    scope: old(self)@.state.scope,
                    tokens: old(self)@.state.tokens.push(
                        TokenView {
                            kind: kind@,
                            location: span(old(self)@.module, old(self)@.start, old(self)@.state.at),
                        },
                    ),
                },
            ),
    {
        let token = Token::new(kind, &self.get_slice());
        proof {
            lemma_token_views_push(self.lexified@, token);
        }
        self.lexified.push(token);
        self.analyser.next(0, 0);
    }

    /// Makes a token of kind `kind` of the `length` characters at the cursor.
    fn take(&mut self, length: usize, kind: Tokens)
        requires
            old(self).sound(),
            old(self)@.start == old(self)@.state.at,
            old(self)@.state.at + length <= old(self)@.module.code.len(),
        ensures
            final(self).sound(),
            final(self)@ == LexerView::resting(
                old(self)@.module,
                old(self)@.state.emit(old(self)@.module, kind@, old(self)@.state.at + length),
            ),
    {
        self.analyser.increase(length);
        self.validate_analyser(kind);
    }

    /// Passes over the `length` characters at the cursor.
    fn skip(&mut self, length: usize)
        requires
            old(self).sound(),
            old(self)@.start == old(self)@.state.at,
            old(self)@.state.at + length <= old(self)@.module.code.len(),
        ensures
            final(self).sound(),
            final(self)@ == LexerView::resting(
                old(self)@.module,
                LexState { at: old(self)@.state.at + length, ..old(self)@.state },
            ),
    {
        self.analyser.next(length, 0);
    }

    /// Whether the character after the one at the cursor is `c`.
    fn next_is(&self, c: char) -> (r: bool)
        requires
            self.sound(),
            self@.state.at < self@.module.code.len(),
        ensures
            r == followed_by(self@.module, self@.state, c),
    {
        let (len, at) = self.bounds();
        at + 1 < len && self.char_at(at + 1) == c
    }

    /// Pushes a scope marker.
    fn enter(&mut self, scope: Scope<LangModuleSlice>)
        requires
            old(self).sound(),
        ensures
            final(self).sound(),
            final(self)@ == (LexerView {
                state: LexState {
                    scope: old(self)@.state.scope.push(scope_view(scope)),
                    ..old(self)@.state
                },
                ..old(self)@
            }),
    {
        proof {
            lemma_scope_views_push(self.scope@, scope);
        }
        self.scope.push(scope);
    }

    /// Pops the innermost scope marker.
    fn leave(&mut self) -> (r: Scope<LangModuleSlice>)
        requires
            old(self).sound(),
            old(self)@.state.scope.len() > 0,
        ensures
            final(self).sound(),
            scope_view(r) == old(self)@.state.scope.last(),
            final(self)@ == (LexerView {
                state: LexState {
                    scope: old(self)@.state.scope.drop_last(),
                    ..old(self)@.state
                },
                ..old(self)@
            }),
    {
        proof {
            lemma_scope_views_drop_last(self.scope@);
        }
        self.scope.pop().unwrap()
    }

    /// The kind of the last token made lets a number begin with a sign or hold a decimal
    /// point.
    fn sign_allowed(&self) -> (r: bool)
        requires
            self.sound(),
        ensures
            r == sign_allowed_after(self@.state.previous()),
    {
        let count = self.lexified.len();
        if count == 0 {
            true
        } else {
            proof {
                lemma_token_views_drop_last(self.lexified@);
            }
            matches!(
                self.lexified[count - 1].kind,
                Tokens::ArgSeparator | Tokens::Operator(Operator::Substract)
                    | Tokens::BinaryOperator(_) | Tokens::Comparison(_) | Tokens::Block(
                    Toggleable::Openning,
                ) | Tokens::VarDef(_)
            )
        }
    }

    /// Whether the characters between `start` and `end` spell `word`.
    fn spells(&self, start: usize, end: usize, word: &str) -> (r: bool)
        requires
            self.sound(),
            start <= end <= self@.module.code.len(),
        ensures
            r == (self@.module.code.subrange(start as int, end as int) == word@),
    {
        let length = word.unicode_len();
        let ghost lexeme = self@.module.code.subrange(start as int, end as int);
        if end - start != length {
            return false;
        }
        let mut at: usize = 0;
        while at < length
            invariant
                self.sound(),
                at <= length,
                length == word@.len(),
                end - start == length,
                start <= end <= self@.module.code.len(),
                lexeme == self@.module.code.subrange(start as int, end as int),
                forall|i: int| 0 <= i < at ==> lexeme[i] == word@[i],
            decreases length - at,
        {
            if self.char_at(start + at) != word.get_char(at) {
                assert(lexeme[at as int] != word@[at as int]);
                return false;
            }
            at = at + 1;
        }
        assert(lexeme =~= word@);
        true
    }

    /// What the word between `start` and `end` is.
    fn word(&self, start: usize, end: usize) -> (r: Tokens)
        requires
            self.sound(),
            start <= end <= self@.module.code.len(),
        ensures
            r@ == word_kind(self@.module.code.subrange(start as int, end as int)),
    {
        if self.spells(start, end, "fn") {
            Tokens::Keyword(Keywords::Fn)
        } else if self.spells(start, end, "cs") {
            Tokens::Keyword(Keywords::Cs)
        } else if self.spells(start, end, "kind") {
            Tokens::Keyword(Keywords::Kind)
        } else if self.spells(start, end, "new") {
            Tokens::Keyword(Keywords::New)
        } else if self.spells(start, end, "while") {
            Tokens::Keyword(Keywords::While)
        } else if self.spells(start, end, "until") {
            Tokens::Keyword(Keywords::Until)
        } else if self.spells(start, end, "each") {
            Tokens::Keyword(Keywords::Each)
        } else if self.spells(start, end, "return") {
            Tokens::Keyword(Keywords::Return)
        } else if self.spells(start, end, "stop") {
            Tokens::Keyword(Keywords::Stop)
        } else if self.spells(start, end, "pass") {
            Tokens::Keyword(Keywords::Pass)
        } else if self.spells(start, end, "if") {
            Tokens::Keyword(Keywords::If)
        } else if self.spells(start, end, "else") {
            Tokens::Keyword(Keywords::Else)
        } else if self.spells(start, end, "true") {
            Tokens::Literal(Literals::True)
        } else if self.spells(start, end, "false") {
            Tokens::Literal(Literals::False)
        } else if self.spells(start, end, "use") {
            Tokens::Keyword(Keywords::Use)
        } else if self.spells(start, end, "in") {
            Tokens::Keyword(Keywords::In)
        } else if self.spells(start, end, "from") {
            Tokens::Keyword(Keywords::From)
        } else {
            Tokens::Literal(Literals::Word)
        }
    }

    /// Check the current slice, and validate it as a keyword, a defined literal (true/false/...) or a word if nothing found.
    /// Note: the word is the default value. Sending "01" to this method result to the word "01" (which is not valid).
    fn validate_word(&mut self)
        requires
            old(self).sound(),
        ensures
            final(self).sound(),
            final(self)@ == LexerView::resting(
                old(self)@.module,
                LexState {
                    at: old(self)@.state.at,
                    scope: old(self)@.state.scope,
                    tokens: old(self)@.state.tokens.push(
                        TokenView {
                            kind: word_kind(
                                old(self)@.module.code.subrange(
                                    old(self)@.start,
                                    old(self)@.state.at,
                                ),
                            ),
                            location: span(old(self)@.module, old(self)@.start, old(self)@.state.at),
                        },
                    ),
                },
            ),
    {
        let range = self.analyser.range();
        let kind = self.word(range.start, range.end);
        self.validate_analyser(kind);
    }
}

/// What one character does to a number that is being read.
enum NumberMove {
    Stop,
    Fail(&'static str),
    Take { follow: bool, allow_float: bool, allow_base_change: bool, class: CharacterRange },
}

impl NumberMove {
    spec fn view(self, scan: NumberScan) -> NumberStep {
        match self {
            NumberMove::Stop => NumberStep::Stop,
            NumberMove::Fail(expected) => NumberStep::Fail(expected@),
            NumberMove::Take { follow, allow_float, allow_base_change, class } => NumberStep::Take {
                follow,
                then: NumberScan { allow_float, allow_base_change, class, ..scan },
            },
        }
    }
}

/// What the character `c` does to the number read so far.
fn number_move(
    c: char,
    empty: bool,
    permitted: bool,
    allow_float: bool,
    allow_base_change: bool,
    class: CharacterRange,
    plain: bool,
    digit_follows: bool,
    Ghost(scan): Ghost<NumberScan>,
) -> (r: NumberMove)
    requires
        scan.plain == plain,
        scan.allow_float == allow_float,
        scan.allow_base_change == allow_base_change,
        scan.class == class,
    ensures
        r.view(scan) == number_step(c, empty, permitted, digit_follows, scan),
{
    if c == '.' {
        if !allow_float {
            if matches!(class, CharacterRange::Decimal) {
                NumberMove::Stop
            } else {
                NumberMove::Fail("[0-9_]")
            }
        } else if !permitted && empty {
            NumberMove::Fail("[0-9_]")
        } else if !permitted && !digit_follows {
            NumberMove::Stop
        } else {
            NumberMove::Take { follow: true, allow_float: false, allow_base_change, class }
        }
    } else if c == '_' {
        if empty {
            NumberMove::Fail("[0-9.]")
        } else {
            NumberMove::Take { follow: false, allow_float, allow_base_change, class }
        }
    } else if c == '-' {
        if !empty {
            NumberMove::Stop
        } else if !permitted {
            NumberMove::Fail("[0-9]")
        } else {
            NumberMove::Take { follow: true, allow_float, allow_base_change, class }
        }
    } else if allow_base_change && (c == 'b' || c == 'x') {
        if empty || !plain {
            NumberMove::Fail("[0-9._-]")
        } else {
            NumberMove::Take {
                follow: true,
                allow_float: false,
                allow_base_change: false,
                class: if c == 'b' {
                    CharacterRange::Binary
                } else {
                    CharacterRange::Hexadecimal
                },
            }
        }
    } else if is_whitespace(c) || in_ranges(CharacterRange::Ponctuation, c) {
        NumberMove::Stop
    } else if !in_ranges(class, c) {
        NumberMove::Fail("[0-9._]")
    } else {
        NumberMove::Take { follow: false, allow_float, allow_base_change, class }
    }
}

/// One token was added to those of `before`, after its cursor, and no scope was opened
/// or closed for good.
pub open spec fn token_added(module: ModuleView, before: LexState, after: LexState) -> bool {
    &&& after.after(module, before.at)
    &&& after.scope.len() == before.scope.len()
    &&& after.tokens.len() > 0
    &&& after.tokens.drop_last() == before.tokens
    &&& after.tokens.last().location.module == module
}

/// The cursor moved forward, at most one scope was closed, and closing one made a token.
pub open spec fn stepped(module: ModuleView, before: LexState, after: LexState) -> bool {
    &&& after.after(module, before.at)
    &&& after.scope.len() >= before.scope.len() - 1
    &&& (after.scope.len() < before.scope.len() ==> after.tokens.len() > 0)
}

impl Lexer {
    /// Parse the current slice as a number
    fn number(&mut self) -> (r: LangResult<()>)
        requires
            old(self).wf(),
            old(self)@.state.at < old(self)@.module.code.len(),
            ({
                let c = old(self)@.module.code[old(self)@.state.at];
                CharacterRange::Decimal.holds(c) || c == '.' || c == '-'
            }),
        ensures
            final(self).sound(),
            final(self)@.module == old(self)@.module,
            match lex_number(old(self)@.module, old(self)@.state) {
                Ok(next) => r is Ok && final(self)@ == LexerView::resting(old(self)@.module, next)
                    && token_added(old(self)@.module, old(self)@.state, next),
                Err(error) => r is Err && r->Err_0@ == error && final(self)@ == old(self)@,
            },
    {
        proof {
            reveal(lex_number);
        }
        let (len, start) = self.bounds();
        let permitted = self.sign_allowed();
        let ghost module = self@.module;
        let mut at: usize = start;
        let mut allow_float = true;
        let mut allow_base_change = true;
        let mut class = CharacterRange::Decimal;
        let mut plain = true;
        loop
            invariant
                self.wf(),
                *self == *old(self),
                module == self@.module,
                len == module.code.len(),
                start == self@.state.at,
                permitted == sign_allowed_after(self@.state.previous()),
                start < len,
                start <= at <= len,
                ({
                    let c = module.code[start as int];
                    CharacterRange::Decimal.holds(c) || c == '.' || c == '-'
                }),
                at == start ==> allow_float && allow_base_change && class
                    == CharacterRange::Decimal && plain,
                scan_number(module, start as int, permitted, number_start(start as int))
                    == scan_number(
                    module,
                    start as int,
                    permitted,
                    NumberScan { at: at as int, allow_float, allow_base_change, class, plain },
                ),
            decreases len - at,
        {
            let ghost scan = NumberScan {
                at: at as int,
                allow_float,
                allow_base_change,
                class,
                plain,
            };
            proof {
                reveal(scan_number);
                reveal(lex_number);
            }
            let step = if at >= len {
                NumberMove::Stop
            } else {
                number_move(
                    self.char_at(at),
                    at == start,
                    permitted,
                    allow_float,
                    allow_base_change,
                    class,
                    plain,
                    at + 1 < len && in_ranges(class, self.char_at(at + 1)),
                    Ghost(scan),
                )
            };
            match step {
                NumberMove::Stop => {
                    assert(at > start);
                    self.stretch(start, at);
                    self.validate_analyser(Tokens::Literal(Literals::Number));
                    proof {
                        let next = self@.state;
                        assert(next.tokens.drop_last() =~= old(self)@.state.tokens);
                    }
                    return Ok(());
                },
                NumberMove::Fail(expected) => {
                    return Err(
                        LangError::UnexpectedCharacter(
                            UnexpectedCharacter(self.slice(at, at + 1), Some(expected)),
                        ),
                    );
                },
                NumberMove::Take { follow, allow_float: float, allow_base_change: base, class: digits } => {
                    let c = self.char_at(at);
                    if follow {
                        if at + 1 >= len {
                            return Err(
                                LangError::UnexpectedCharacter(
                                    UnexpectedCharacter(self.slice(at, at + 1), Some(".[0-9]")),
                                ),
                            );
                        }
                        let after = self.char_at(at + 1);
                        if !in_ranges(digits, after) {
                            return Err(
                                LangError::UnexpectedCharacter(
                                    UnexpectedCharacter(
                                        self.slice(at + 1, at + 2),
                                        Some("[0-9]"),
                                    ),
                                ),
                            );
                        }
                        plain = plain && (c == '0' || c == '-') && (after == '0' || after == '-');
                        at = at + 2;
                    } else {
                        plain = plain && (c == '0' || c == '-');
                        at = at + 1;
                    }
                    allow_float = float;
                    allow_base_change = base;
                    class = digits;
                },
            }
        }
    }
}

impl Lexer {
    /// The error of a scope left open, for the innermost scope.
    fn unclosed(&mut self) -> (r: LangError)
        requires
            old(self).sound(),
            old(self)@.state.scope.len() > 0,
        ensures
            final(self).sound(),
            final(self)@.module == old(self)@.module,
            final(self)@.start == old(self)@.start,
            final(self)@.state.at == old(self)@.state.at,
            r@ == LangErrorView::UnclosedScope(old(self)@.state.scope.last()),
    {
        LangError::UnclosedScope(UnclosedScope(self.leave()))
    }

    /// Parse the current slice as any literal.
    fn literal(&mut self) -> (r: LangResult<()>)
        requires
            old(self).wf(),
            old(self)@.state.at < old(self)@.module.code.len(),
        ensures
            final(self).sound(),
            final(self)@.module == old(self)@.module,
            match lex_literal(old(self)@.module, old(self)@.state) {
                Ok(next) => r is Ok && final(self)@ == LexerView::resting(old(self)@.module, next)
                    && token_added(old(self)@.module, old(self)@.state, next),
                Err(error) => r is Err && r->Err_0@ == error,
            },
        decreases old(self)@.module.code.len() - old(self)@.state.at, 3int,
    {
        proof {
            reveal(lex_literal);
            reveal(lex_string);
        }
        let (len, at) = self.bounds();
        let c = self.char_at(at);
        if in_ranges(CharacterRange::Decimal, c) {
            self.number()
        } else if c == '"' || c == '\'' {
            self.string()
        } else if in_ranges(CharacterRange::VariableCharacter, c) && !in_ranges(
            CharacterRange::BannedFirstVariableCharacter,
            c,
        ) {
            let mut end: usize = at + 1;
            while end < len && in_ranges(CharacterRange::VariableCharacter, self.char_at(end))
                invariant
                    self.wf(),
                    *self == *old(self),
                    len == self@.module.code.len(),
                    at < end <= len,
                    word_end(self@.module.code, at + 1) == word_end(
                        self@.module.code,
                        end as int,
                    ),
                decreases len - end,
            {
                end = end + 1;
            }
            self.stretch(at, end);
            self.validate_word();
            proof {
                assert(self@.state.tokens.drop_last() =~= old(self)@.state.tokens);
            }
            Ok(())
        } else {
            Err(LangError::UnknownCharacter(UnknownCharacter(self.slice(at, at + 1))))
        }
    }

    /// Assert that we're in a string expression, whose openning characters stand at `at`.
    /// Parse the expression inside and return it, with the position after the character
    /// that closes it.
    fn string_expression(&mut self, at: usize) -> (r: LangResult<(Vec<Token<Tokens>>, usize)>)
        requires
            old(self).sound(),
            at + 2 <= old(self)@.module.code.len(),
        ensures
            final(self).sound(),
            final(self)@.module == old(self)@.module,
            match lex_expression(old(self)@.module, at as int, old(self)@.state.scope) {
                Ok(inner) => r is Ok && token_views(r->Ok_0.0@) == inner.tokens && r->Ok_0.1
                    == inner.end && final(self)@.state.scope == inner.scope
                    && final(self)@.state.tokens == old(self)@.state.tokens && inner.scope.len()
                    == old(self)@.state.scope.len() && at < inner.end
                    <= old(self)@.module.code.len(),
                Err(error) => r is Err && r->Err_0@ == error,
            },
        decreases old(self)@.module.code.len() - at, 0int,
    {
        proof {
            reveal(lex_expression);
            reveal(lex_expression_run);
            reveal(lex_step);
        }
        let ghost module = self@.module;
        let ghost first = LexState {
            at: at + 2,
            scope: self@.state.scope.push(Scope::Block(span(module, at as int, at + 2))),
            tokens: Seq::empty(),
        };
        let (len, _) = self.bounds();
        let outer_scope = self.scope.len();
        // The expression is lexified on its own: the tokens made so far are set aside.
        let mut aside: Vec<Token<Tokens>> = Vec::new();
        core::mem::swap(&mut self.lexified, &mut aside);
        assert(token_views(self.lexified@) =~= Seq::empty());
        let opener = self.slice(at, at + 2);
        self.enter(Scope::Block(opener));
        self.stretch(at + 2, at + 2);
        assert(self@.state == first);
        while self.scope.len() > outer_scope
            invariant
                self.wf(),
                self@.module == module,
                module == old(self)@.module,
                outer_scope == old(self)@.state.scope.len(),
                at + 2 <= self@.state.at <= module.code.len(),
                self@.state.scope.len() >= outer_scope,
                self@.state.scope.len() == self.scope.len(),
                self@.state.scope.len() == outer_scope ==> self@.state.tokens.len() > 0,
                token_views(aside@) == old(self)@.state.tokens,
                first == (LexState {
                    at: at + 2,
                    scope: old(self)@.state.scope.push(
                        Scope::Block(span(module, at as int, at + 2)),
                    ),
                    tokens: Seq::empty(),
                }),
                forall|i: int|
                    0 <= i < aside@.len() ==> (#[trigger] aside@[i]).location@.module == module,
                lex_expression_run(module, outer_scope as int, first) == lex_expression_run(
                    module,
                    outer_scope as int,
                    self@.state,
                ),
            decreases module.code.len() - self@.state.at,
        {
            proof {
                reveal(lex_expression_run);
                reveal(lex_expression);
                reveal(lex_step);
            }
            if self.analyser.process_finished() {
                return Err(self.unclosed());
            }
            let ghost before = self@.state;
            match self.process() {
                Err(error) => {
                    return Err(error);
                },
                Ok(()) => {},
            }
        }
        core::mem::swap(&mut self.lexified, &mut aside);
        proof {
            lemma_token_views_drop_last(aside@);
        }
        aside.pop();
        let (_, end) = self.bounds();
        Ok((aside, end))
    }

    /// Ends the literal part that is being read between `from` and `at`, if it holds
    /// anything: it joins the parts, and the text starts empty again.
    fn flush(
        &self,
        content: &mut Vec<Token<StringItem>>,
        literal_value: &mut String,
        from: usize,
        at: usize,
    )
        requires
            self.sound(),
            from <= at <= self@.module.code.len(),
        ensures
            part_views(final(content)@) == (StringScan {
                at: at as int,
                from: from as int,
                text: old(literal_value)@,
                parts: part_views(old(content)@),
            }).flush(self@.module),
    {
        if literal_value.unicode_len() > 0 {
            let mut text = String::new();
            core::mem::swap(literal_value, &mut text);
            let part = Token { kind: StringItem::Literal(text), location: self.slice(from, at) };
            proof {
                lemma_part_views_push(content@, part);
            }
            content.push(part);
        }
    }

    /// Parse the current value as a string
    fn string(&mut self) -> (r: LangResult<()>)
        requires
            old(self).wf(),
            old(self)@.state.at < old(self)@.module.code.len(),
        ensures
            final(self).sound(),
            final(self)@.module == old(self)@.module,
            match lex_string(old(self)@.module, old(self)@.state) {
                Ok(next) => r is Ok && final(self)@ == LexerView::resting(old(self)@.module, next)
                    && token_added(old(self)@.module, old(self)@.state, next),
                Err(error) => r is Err && r->Err_0@ == error,
            },
        decreases old(self)@.module.code.len() - old(self)@.state.at, 2int,
    {
        let (len, quote) = self.bounds();
        let ghost module = self@.module;
        let toggler = self.char_at(quote);
        let opener = self.slice(quote, quote + 1);
        self.enter(Scope::String(opener));
        let mut content: Vec<Token<StringItem>> = Vec::new();
        let mut literal_value = String::new();
        let mut from: usize = quote + 1;
        let mut at: usize = quote + 1;
        proof {
            assert(part_views(content@) =~= Seq::empty());
            assert(lex_string(module, old(self)@.state) == string_token(
                module,
                old(self)@.state,
                lex_string_parts(
                    module,
                    toggler,
                    self@.state.scope,
                    StringScan {
                        at: quote + 1,
                        from: quote + 1,
                        text: Seq::empty(),
                        parts: Seq::empty(),
                    },
                ),
            )) by {
                reveal(lex_string);
                reveal(lex_string_parts);
            }
        }
        loop
            invariant
                self.wf(),
                self@.module == module,
                module == old(self)@.module,
                len == module.code.len(),
                quote == old(self)@.state.at,
                toggler == module.code[quote as int],
                self@.state.at == quote,
                self@.state.tokens == old(self)@.state.tokens,
                self@.state.scope.len() == old(self)@.state.scope.len() + 1,
                quote < from <= at <= len,
                lex_string(module, old(self)@.state) == string_token(
                    module,
                    old(self)@.state,
                    lex_string_parts(
                        module,
                        toggler,
                        self@.state.scope,
                        StringScan {
                            at: at as int,
                            from: from as int,
                            text: literal_value@,
                            parts: part_views(content@),
                        },
                    ),
                ),
            decreases len - at,
        {
            let ghost scan = StringScan {
                at: at as int,
                from: from as int,
                text: literal_value@,
                parts: part_views(content@),
            };
            let ghost scope = self@.state.scope;
            let ghost rest = lex_string_parts(module, toggler, scope, scan);
            if at >= len {
                assert(rest == Err::<StringEnd, LangErrorView>(
                    LangErrorView::UnclosedScope(scope.last()),
                )) by {
                    reveal(lex_string_parts);
                }
                return Err(self.unclosed());
            }
            let c = self.char_at(at);
            if c == toggler {
                assert(rest == if scope.last() is String {
                    Ok::<StringEnd, LangErrorView>(
                        StringEnd {
                            end: at + 1,
                            parts: scan.flush(module),
                            scope: scope.drop_last(),
                        },
                    )
                } else {
                    Err(
                        LangErrorView::InvalidScopeEnding(
                            span(module, at as int, at + 1),
                            scope.last(),
                        ),
                    )
                }) by {
                    reveal(lex_string_parts);
                }
                let here = self.slice(at, at + 1);
                let scope = self.leave();
                if !matches!(scope, Scope::String(_)) {
                    return Err(LangError::InvalidScopeEnding(InvalidScopeEnding(here, scope)));
                }
                self.flush(&mut content, &mut literal_value, from, at);
                // Recalibrate the analyser to match the whole string
                self.stretch(quote, at + 1);
                self.validate_analyser(Tokens::Literal(Literals::String(content)));
                proof {
                    assert(self@.state.tokens.drop_last() =~= old(self)@.state.tokens);
                }
                return Ok(());
            } else if c == '&' && toggler == '"' {
                if at + 1 < len && self.char_at(at + 1) == '(' {
                    assert(rest == match lex_expression(module, at as int, scope) {
                        Err(error) => Err::<StringEnd, LangErrorView>(error),
                        Ok(inner) => if at < inner.end <= len {
                            lex_string_parts(
                                module,
                                toggler,
                                inner.scope,
                                StringScan {
                                    at: inner.end,
                                    from: inner.end,
                                    text: Seq::empty(),
                                    parts: scan.flush(module).push(
                                        TokenView {
                                            kind: StringItemView::Expression(inner.tokens),
                                            location: span(module, at as int, inner.end),
                                        },
                                    ),
                                },
                            )
                        } else {
                            Err(LangErrorView::UnclosedScope(scope.last()))
                        },
                    }) by {
                        reveal(lex_string_parts);
                        reveal(lex_expression);
                    }
                    self.flush(&mut content, &mut literal_value, from, at);
                    literal_value = String::new();
                    match self.string_expression(at) {
                        Err(error) => {
                            return Err(error);
                        },
                        Ok((expression, end)) => {
                            let part = Token {
                                kind: StringItem::Expression(Box::new(expression)),
                                location: self.slice(at, end),
                            };
                            proof {
                                lemma_part_views_push(content@, part);
                            }
                            content.push(part);
                            self.stretch(quote, quote);
                            from = end;
                            at = end;
                        },
                    }
                } else {
                    assert(rest == lex_string_parts(
                        module,
                        toggler,
                        scope,
                        StringScan { at: at + 1, text: scan.text.push('&'), ..scan },
                    )) by {
                        reveal(lex_string_parts);
                    }
                    push_char(&mut literal_value, '&');
                    at = at + 1;
                }
            } else if c == '\\' {
                if at + 1 >= len {
                    assert(rest == Err::<StringEnd, LangErrorView>(
                        LangErrorView::UnclosedScope(scope.last()),
                    )) by {
                        reveal(lex_string_parts);
                    }
                    return Err(self.unclosed());
                }
                /*
                    \t Insert a tab in the text at this point.
                    \b Insert a backspace in the text at this point.
                    \n Insert a newline in the text at this point.
                    \r Insert a carriage return in the text at this point.
                    \f Insert a formfeed in the text at this point.
                    \s Insert a space in the text at this point.
                    \' Insert a single quote character in the text at this point.
                    \" Insert a double quote character in the text at this point.
                    \\ Insert a backslash character in the text at this point.
                */
                let escaped = self.char_at(at + 1);
                let meant = if escaped == 't' {
                    '\t'
                } else if escaped == 'b' {
                    '\u{8}'
                } else if escaped == 'n' {
                    '\n'
                } else if escaped == 'r' {
                    '\r'
                } else if escaped == 'f' {
                    '\u{c}'
                } else if escaped == 's' {
                    ' '
                } else {
                    escaped
                };
                assert(rest == lex_string_parts(
                    module,
                    toggler,
                    scope,
                    StringScan { at: at + 2, text: scan.text.push(meant), ..scan },
                )) by {
                    reveal(lex_string_parts);
                }
                push_char(&mut literal_value, meant);
                at = at + 2;
            } else {
                assert(rest == lex_string_parts(
                    module,
                    toggler,
                    scope,
                    StringScan { at: at + 1, text: scan.text.push(c), ..scan },
                )) by {
                    reveal(lex_string_parts);
                }
                push_char(&mut literal_value, c);
                at = at + 1;
            }
        }
    }

    /// The scope target that the `@` at the cursor opens.
    fn target(&mut self) -> (r: LangResult<()>)
        requires
            old(self).wf(),
            old(self)@.state.at < old(self)@.module.code.len(),
        ensures
            final(self).sound(),
            final(self)@.module == old(self)@.module,
            match lex_target(old(self)@.module, old(self)@.state) {
                Ok(next) => r is Ok && final(self)@ == LexerView::resting(old(self)@.module, next)
                    && token_added(old(self)@.module, old(self)@.state, next),
                Err(error) => r is Err && r->Err_0@ == error,
            },
        decreases old(self)@.module.code.len() - old(self)@.state.at, 4int,
    {
        proof {
            reveal(lex_target);
            reveal(lex_literal);
        }
        // @<varname-like>
        // or
        // @<+
        // or
        // @<number>
        let (len, at) = self.bounds();
        let ghost module = self@.module;
        let mut run: usize = at + 1;
        while run < len && self.char_at(run) == '<'
            invariant
                self.wf(),
                *self == *old(self),
                len == self@.module.code.len(),
                at < run <= len,
                angle_run_end(self@.module.code, at + 1) == angle_run_end(
                    self@.module.code,
                    run as int,
                ),
            decreases len - run,
        {
            run = run + 1;
        }
        if run > at + 1 {
            self.take(run - at, Tokens::ScopeTarget(ScopeTarget::Numbered(run - at - 1)));
            proof {
                assert(self@.state.tokens.drop_last() =~= old(self)@.state.tokens);
            }
            return Ok(());
        }
        let opener = self.slice(at, at + 1);
        if at + 1 >= len {
            return Err(
                LangError::Expected(
                    Expected {
                        after: opener,
                        expected: Some("multiple '<', an integer < 0 or a word".to_owned()),
                        but_found: None,
                    },
                ),
            );
        }
        // handle as a variable
        self.skip(1);
        match self.literal() {
            Err(error) => {
                return Err(error);
            },
            Ok(()) => {},
        }
        proof {
            lemma_token_views_drop_last(self.lexified@);
        }
        let (_, end) = self.bounds();
        let lexified = self.lexified.pop().unwrap();
        assert(token_views(self.lexified@) == old(self)@.state.tokens);
        let target = match &lexified.kind {
            Tokens::Literal(Literals::Word)
            | Tokens::Literal(Literals::True)
            | Tokens::Literal(Literals::False)
            | Tokens::Keyword(_) => ScopeTarget::Named(lexified.location.code().to_owned()),
            Tokens::Literal(Literals::Number) => {
                let amount = match NumberRepresentation::from(&lexified.location) {
                    Some(number) => if !number.negative && number.decimal.is_none()
                        && number.integer != 0 && number.integer <= usize::MAX as u64 {
                        Some(number.integer as usize)
                    } else {
                        None
                    },
                    None => None,
                };
                match amount {
                    Some(amount) => ScopeTarget::Numbered(amount),
                    None => {
                        return Err(
                            LangError::Expected(
                                Expected {
                                    after: opener,
                                    expected: Some(
                                        "multiple '<', an integer < 0 or a word".to_owned(),
                                    ),
                                    but_found: Some(
                                        "a negative and/or decimal-based number".to_owned(),
                                    ),
                                },
                            ),
                        );
                    },
                }
            },
            _ => {
                return Err(
                    LangError::Expected(
                        Expected {
                            after: opener,
                            expected: Some("multiple '<', an integer < 0 or a word".to_owned()),
                            but_found: Some(lexified.location.code().to_owned()),
                        },
                    ),
                );
            },
        };
        self.stretch(at, end);
        self.validate_analyser(Tokens::ScopeTarget(target));
        proof {
            assert(self@.state.tokens.drop_last() =~= old(self)@.state.tokens);
        }
        Ok(())
    }

    /// The variable definition mark that the `:` at the cursor opens.
    fn definition(&mut self) -> (r: LangResult<()>)
        requires
            old(self).wf(),
            old(self)@.state.at < old(self)@.module.code.len(),
        ensures
            final(self).sound(),
            final(self)@.module == old(self)@.module,
            match lex_definition(old(self)@.module, old(self)@.state) {
                Ok(next) => r is Ok && final(self)@ == LexerView::resting(old(self)@.module, next)
                    && next.after(old(self)@.module, old(self)@.state.at) && next.scope
                    == old(self)@.state.scope && next.tokens.len() > 0,
                Err(error) => r is Err && r->Err_0@ == error,
            },
    {
        proof {
            reveal(lex_definition);
        }
        let (len, at) = self.bounds();
        let constant = self.next_is(':');
        let length: usize = if constant {
            2
        } else {
            1
        };
        let count = self.lexified.len();
        proof {
            if count > 0 {
                lemma_token_views_drop_last(self.lexified@);
            }
        }
        if count > 0 && matches!(self.lexified[count - 1].kind, Tokens::Operator(_)) {
            if constant {
                return Err(
                    LangError::UnexpectedCharacter(
                        UnexpectedCharacter(self.slice(at, at + 2), Some("<operator>: ...")),
                    ),
                );
            }
            // Remove the operation token
            assert(self.lexified@[count - 1].location@.module == self@.module);
            let previous = self.lexified.pop().unwrap();
            let operator = match previous.kind {
                Tokens::Operator(operator) => operator,
                _ => Operator::Add,
            };
            // Set the reference to also take the operator
            let folded = previous.location.range();
            let start = if folded.start <= at {
                folded.start
            } else {
                at
            };
            let end = if folded.end >= at + 1 {
                folded.end
            } else {
                at + 1
            };
            self.stretch(start, end);
            self.validate_analyser(
                Tokens::VarDef(
                    VarDefinition::WithOperation(
                        Token { kind: operator, location: previous.location },
                    ),
                ),
            );
            self.stretch(at + 1, at + 1);
            return Ok(());
        }
        self.take(
            length,
            Tokens::VarDef(
                if constant {
                    VarDefinition::Constant
                } else {
                    VarDefinition::Normal
                },
            ),
        );
        Ok(())
    }

    /// The scope that the delimiter at the cursor closes, which must be of the kind of
    /// `wanted`.
    fn close(&mut self, wanted: Scope<()>, kind: Tokens) -> (r: LangResult<()>)
        requires
            old(self).wf(),
            old(self)@.state.at < old(self)@.module.code.len(),
        ensures
            final(self).sound(),
            final(self)@.module == old(self)@.module,
            match close_scope(old(self)@.module, old(self)@.state, wanted, kind@) {
                Ok(next) => r is Ok && final(self)@ == LexerView::resting(old(self)@.module, next),
                Err(error) => r is Err && r->Err_0@ == error,
            },
    {
        let (len, at) = self.bounds();
        let here = self.slice(at, at + 1);
        if self.scope.len() == 0 {
            return Err(LangError::UnexpectedCharacter(UnexpectedCharacter(here, None)));
        }
        let scope = self.leave();
        if scope.is(&wanted) {
            self.take(1, kind);
            Ok(())
        } else {
            Err(LangError::InvalidScopeEnding(InvalidScopeEnding(here, scope)))
        }
    }

    /// Passes over the comment that the `|` at the cursor opens.
    fn comment(&mut self)
        requires
            old(self).wf(),
            old(self)@.state.at < old(self)@.module.code.len(),
        ensures
            final(self).sound(),
            final(self)@ == LexerView::resting(
                old(self)@.module,
                LexState {
                    at: comment_end(old(self)@.module.code, old(self)@.state.at),
                    ..old(self)@.state
                },
            ),
            old(self)@.state.at < final(self)@.state.at <= old(self)@.module.code.len(),
    {
        let (len, at) = self.bounds();
        let mut end: usize;
        if self.next_is('|') {
            end = at + 2;
            while end < len && !(end + 1 < len && self.char_at(end) == '|' && self.char_at(end + 1)
                == '|')
                invariant
                    self.wf(),
                    *self == *old(self),
                    len == self@.module.code.len(),
                    at + 2 <= end <= len,
                    block_comment_end(self@.module.code, at + 2) == block_comment_end(
                        self@.module.code,
                        end as int,
                    ),
                decreases len - end,
            {
                end = end + 1;
            }
            if end < len {
                end = end + 2;
            }
        } else {
            end = at + 1;
            while end < len && self.char_at(end) != '\n'
                invariant
                    self.wf(),
                    *self == *old(self),
                    len == self@.module.code.len(),
                    at + 1 <= end <= len,
                    line_comment_end(self@.module.code, at + 1) == line_comment_end(
                        self@.module.code,
                        end as int,
                    ),
                decreases len - end,
            {
                end = end + 1;
            }
            if end < len {
                end = end + 1;
            }
        }
        // We do not add a comment as a token
        self.skip(end - at);
    }

    /// Reads what begins at the cursor: a blank or a comment, which is passed over, or a
    /// token.
    fn process(&mut self) -> (r: LangResult<()>)
        requires
            old(self).wf(),
        ensures
            final(self).sound(),
            final(self)@.module == old(self)@.module,
            match lex_step(old(self)@.module, old(self)@.state) {
                Ok(next) => r is Ok && final(self)@ == LexerView::resting(old(self)@.module, next)
                    && (old(self)@.state.at < old(self)@.module.code.len() ==> stepped(
                    old(self)@.module,
                    old(self)@.state,
                    next,
                )),
                Err(error) => r is Err && r->Err_0@ == error,
            },
        decreases old(self)@.module.code.len() - old(self)@.state.at, 5int,
    {
        proof {
            reveal(lex_step);
            reveal(lex_literal);
            reveal(lex_target);
        }
        let (len, at) = self.bounds();
        if at >= len {
            return Ok(());
        }
        let c = self.char_at(at);
        // Skipping useless whitespace
        if is_whitespace(c) {
            self.skip(1);
            return Ok(());
        }
        if c == '!' {
            self.take(1, Tokens::Not);
        } else if c == '(' {
            let here = self.slice(at, at + 1);
            self.enter(Scope::Block(here));
            self.take(1, Tokens::Block(Toggleable::Openning));
        } else if c == ')' {
            return self.close(Scope::Block(()), Tokens::Block(Toggleable::Closing));
        } else if c == '{' {
            let here = self.slice(at, at + 1);
            self.enter(Scope::Object(here));
            self.take(1, Tokens::Object(Toggleable::Openning));
        } else if c == '}' {
            return self.close(Scope::Object(()), Tokens::Object(Toggleable::Closing));
        } else if c == '.' {
            if self.number().is_err() {
                self.take(1, Tokens::Accessor);
            }
        } else if c == '-' {
            if self.number().is_err() {
                self.take(1, Tokens::Operator(Operator::Substract));
            }
        } else if c == '+' {
            self.take(1, Tokens::Operator(Operator::Add));
        } else if c == '*' {
            if self.next_is('*') {
                self.take(2, Tokens::Operator(Operator::Power));
            } else {
                self.take(1, Tokens::Operator(Operator::Multiply));
            }
        } else if c == '/' {
            if self.next_is('/') {
                self.take(2, Tokens::Operator(Operator::EuclidianDivision));
            } else {
                self.take(1, Tokens::Operator(Operator::Divide));
            }
        } else if c == '@' {
            return self.target();
        } else if c == '%' {
            self.take(1, Tokens::Operator(Operator::Modulo));
        } else if c == ';' {
            let count = self.lexified.len();
            proof {
                if count > 0 {
                    lemma_token_views_drop_last(self.lexified@);
                }
            }
            if count > 0 && matches!(self.lexified[count - 1].kind, Tokens::EndOfInstruction) {
                // Here we prevent following end of instruction (useless)
                self.skip(1);
            } else {
                self.take(1, Tokens::EndOfInstruction);
            }
        } else if c == ',' {
            self.take(1, Tokens::ArgSeparator);
        } else if c == '#' {
            self.take(1, Tokens::Modifier);
        } else if c == ':' {
            return self.definition();
        } else if c == '&' {
            self.take(1, Tokens::BinaryOperator(BinaryOperator::And));
        } else if c == '?' {
            self.take(1, Tokens::BinaryOperator(BinaryOperator::Or));
        } else if c == '~' {
            self.take(1, Tokens::BinaryOperator(BinaryOperator::Xor));
        } else if c == '=' {
            self.take(1, Tokens::Comparison(Comparison::Equal));
        } else if c == '<' {
            if self.next_is('=') {
                self.take(2, Tokens::Comparison(Comparison::Less(false)));
            } else {
                self.take(1, Tokens::Comparison(Comparison::Less(true)));
            }
        } else if c == '>' {
            if self.next_is('=') {
                self.take(2, Tokens::Comparison(Comparison::Greater(false)));
            } else {
                self.take(1, Tokens::Comparison(Comparison::Greater(true)));
            }
        } else if c == '|' {
            self.comment();
        } else {
            return self.literal();
        }
        Ok(())
    }

    /// Execute the lexer if needed and return the vector of tokens
    pub fn lexify(&mut self) -> (r: LangResult<&Vec<Token<Tokens>>>)
        requires
            old(self).wf(),
        ensures
            final(self).sound(),
            r is Ok ==> final(self).wf(),
            final(self)@.module == old(self)@.module,
            match lex_from(old(self)@.module, old(self)@.state) {
                Ok(tokens) => r is Ok && token_views(r->Ok_0@) == tokens && final(self)@.state
                    == (LexState {
                    at: old(self)@.module.code.len() as int,
                    scope: Seq::empty(),
                    tokens,
                }),
                Err(error) => r is Err && r->Err_0@ == error,
            },
    {
        proof {
            reveal(lex_run);
        }
        let ghost module = self@.module;
        let ghost first = self@.state;
        let (len, _) = self.bounds();
        while !self.analyser.process_finished()
            invariant
                self.wf(),
                self@.module == module,
                module == old(self)@.module,
                first == old(self)@.state,
                self@.state.at <= module.code.len(),
                lex_run(module, first) == lex_run(module, self@.state),
            decreases module.code.len() - self@.state.at,
        {
            proof {
                reveal(lex_run);
            }
            match self.process() {
                Err(error) => {
                    return Err(error);
                },
                Ok(()) => {},
            }
        }
        if self.scope.len() > 0 {
            return Err(self.unclosed());
        }
        assert(self@.state.scope =~= Seq::empty());
        Ok(&self.lexified)
    }

    /// Clear the lexified tokens and rebuild it
    pub fn relexify(&mut self) -> (r: LangResult<&Vec<Token<Tokens>>>)
        requires
            old(self).sound(),
        ensures
            final(self).sound(),
            r is Ok ==> final(self).wf(),
            final(self)@.module == old(self)@.module,
            match lex_from(
                old(self)@.module,
                LexState { at: 0, scope: old(self)@.state.scope, tokens: Seq::empty() },
            ) {
                Ok(tokens) => r is Ok && token_views(r->Ok_0@) == tokens && final(self)@.state
                    == (LexState {
                    at: old(self)@.module.code.len() as int,
                    scope: Seq::empty(),
                    tokens,
                }),
                Err(error) => r is Err && r->Err_0@ == error,
            },
    {
        self.lexified = Vec::new();
        assert(token_views(self.lexified@) =~= Seq::empty());
        self.stretch(0, 0);
        self.lexify()
    }
}

} // verus!
