use crate::flylang::errors::LangErrorView;
use crate::flylang::lexer::ranges::{CharacterRange, whitespace};
use crate::flylang::lexer::rules::{
    angle_run_end, block_comment_end, comment_end, digit_after, keeps_plain, lex, lex_definition,
    lex_expression, lex_expression_run, lex_literal, lex_number, lex_run, lex_step, lex_string,
    lex_string_parts, lex_target, LexState, line_comment_end, number_start, number_step, NumberScan,
    NumberStep, scan_number, sign_allowed_after, string_token, StringScan, unescape, word_end,
};
use crate::flylang::lexer::tokens::{
    LiteralsView, Operator, StringItemView, TokensView, TokenView, VarDefinitionView,
};
use crate::flylang::module::ModuleView;
use crate::flylang::module::slice::{SliceView, span};
use crate::flylang::utils::scoper::Scope;
use vstd::prelude::*;

verus! {

// ------ Where tokens stand
/// Whether a part of a string stands between `low` and `high`, and the tokens of its
/// expression, if it is one, stand inside it, in order.
pub open spec fn placed_part(
    module: ModuleView,
    part: TokenView<StringItemView>,
    low: int,
    high: int,
) -> bool
    decreases part,
{
    &&& part.location.module == module
    &&& low <= part.location.start <= part.location.end <= high
    &&& match part.kind {
        StringItemView::Expression(tokens) => placed_tokens(
            module,
            tokens,
            part.location.start,
            part.location.end,
        ),
        _ => true,
    }
}

/// Whether a token is a slice of the module that is not empty and stands between `low`
/// and `high`, and what it holds stands inside it.
pub open spec fn placed_token(
    module: ModuleView,
    token: TokenView<TokensView>,
    low: int,
    high: int,
) -> bool
    decreases token,
{
    &&& token.location.module == module
    &&& 0 <= low <= token.location.start < token.location.end <= high <= module.code.len()
    &&& match token.kind {
        TokensView::Literal(LiteralsView::String(parts)) => forall|i: int|
            0 <= i < parts.len() ==> placed_part(
                module,
                #[trigger] parts[i],
                token.location.start,
                token.location.end,
            ),
        TokensView::VarDef(VarDefinitionView::WithOperation(operator)) => token.location.holds(
            operator.location,
        ),
        _ => true,
    }
}

/// Whether the tokens stand between `low` and `high` in the order of the source: each is
/// placed, and ends where the next begins or before it.
pub open spec fn placed_tokens(
    module: ModuleView,
    tokens: Seq<TokenView<TokensView>>,
    low: int,
    high: int,
) -> bool
    decreases tokens,
{
    &&& forall|i: int|
        0 <= i < tokens.len() ==> placed_token(module, #[trigger] tokens[i], low, high)
    &&& forall|i: int, j: int|
        0 <= i < j < tokens.len() ==> (#[trigger] tokens[i]).location.end <= (
        #[trigger] tokens[j]).location.start
}

/// Whether nothing stands between `from` and `to` but what lexing passes over: blanks,
/// comments, and the `;` that repeat one before them.
pub open spec fn idle(code: Seq<char>, from: int, to: int) -> bool
    decreases to - from,
{
    if from >= to {
        from == to
    } else if from < 0 || to > code.len() {
        false
    } else if whitespace(code[from]) || code[from] == ';' {
        idle(code, from + 1, to)
    } else if code[from] == '|' {
        from < comment_end(code, from) <= to && idle(code, comment_end(code, from), to)
    } else {
        false
    }
}

/// Where the last of the tokens ends; `base` where there is none.
pub open spec fn reach(tokens: Seq<TokenView<TokensView>>, base: int) -> int {
    if tokens.len() == 0 {
        base
    } else {
        tokens.last().location.end
    }
}

/// Whether the tokens stand in the module, from `base` on, in the order of the source:
/// each is a slice of the module that is not empty, begins where the one before it ends
/// or after it, and nothing but what lexing passes over stands between the two.
pub open spec fn in_order(module: ModuleView, tokens: Seq<TokenView<TokensView>>, base: int)
    -> bool
    decreases tokens.len(),
{
    if tokens.len() == 0 {
        true
    } else {
        let token = tokens.last().location;
        &&& in_order(module, tokens.drop_last(), base)
        &&& token.module == module
        &&& reach(tokens.drop_last(), base) <= token.start < token.end <= module.code.len()
        &&& idle(module.code, reach(tokens.drop_last(), base), token.start)
    }
}

/// Whether the tokens of the state, with what lexing has passed over, make up the source
/// from `base` up to the cursor, and each token holds what stands inside it.
pub open spec fn made_of(module: ModuleView, state: LexState, base: int) -> bool {
    &&& 0 <= base
    &&& in_order(module, state.tokens, base)
    &&& reach(state.tokens, base) <= state.at <= module.code.len()
    &&& idle(module.code, reach(state.tokens, base), state.at)
    &&& forall|i: int|
        0 <= i < state.tokens.len() ==> placed_token(
            module,
            #[trigger] state.tokens[i],
            base,
            module.code.len() as int,
        )
}

/// Whether `next` is `state` with one token more, which runs from the cursor of `state`
/// to that of `next`, is not empty, and holds what stands inside it.
pub open spec fn added(module: ModuleView, state: LexState, next: LexState) -> bool {
    &&& next.tokens.len() > 0
    &&& next.tokens.drop_last() == state.tokens
    &&& next.tokens.last().location == span(module, state.at, next.at)
    &&& 0 <= state.at < next.at <= module.code.len()
    &&& placed_token(module, next.tokens.last(), state.at, module.code.len() as int)
}

/// Whether a token of this kind holds nothing inside it.
pub open spec fn plain(kind: TokensView) -> bool {
    !(kind matches TokensView::Literal(LiteralsView::String(_))) && !(kind matches TokensView::VarDef(
        VarDefinitionView::WithOperation(_),
    ))
}

// ------ Where what is passed over and what is read ends
/// What lexing passes over, then what it passes over again, is passed over.
pub proof fn lemma_idle_joins(code: Seq<char>, from: int, middle: int, to: int)
    requires
        idle(code, from, middle),
        idle(code, middle, to),
    ensures
        idle(code, from, to),
    decreases middle - from,
{
    if from < middle {
        if whitespace(code[from]) || code[from] == ';' {
            lemma_idle_joins(code, from + 1, middle, to);
        } else {
            lemma_idle_joins(code, comment_end(code, from), middle, to);
        }
    }
}

pub proof fn lemma_line_comment_end(code: Seq<char>, at: int)
    requires
        0 <= at <= code.len(),
    ensures
        at <= line_comment_end(code, at) <= code.len(),
    decreases code.len() - at,
{
    if at < code.len() && code[at] != '\n' {
        lemma_line_comment_end(code, at + 1);
    }
}

pub proof fn lemma_block_comment_end(code: Seq<char>, at: int)
    requires
        0 <= at <= code.len(),
    ensures
        at <= block_comment_end(code, at) <= code.len(),
    decreases code.len() - at,
{
    if at < code.len() && !(at + 1 < code.len() && code[at] == '|' && code[at + 1] == '|') {
        lemma_block_comment_end(code, at + 1);
    }
}

/// A comment ends after the `|` that opens it, and inside the code.
pub proof fn lemma_comment_end(code: Seq<char>, at: int)
    requires
        0 <= at < code.len(),
    ensures
        at < comment_end(code, at) <= code.len(),
{
    if at + 1 < code.len() && code[at + 1] == '|' {
        lemma_block_comment_end(code, at + 2);
    } else {
        lemma_line_comment_end(code, at + 1);
    }
}

pub proof fn lemma_word_end(code: Seq<char>, at: int)
    requires
        0 <= at <= code.len(),
    ensures
        at <= word_end(code, at) <= code.len(),
    decreases code.len() - at,
{
    if at < code.len() && CharacterRange::VariableCharacter.holds(code[at]) {
        lemma_word_end(code, at + 1);
    }
}

pub proof fn lemma_angle_run_end(code: Seq<char>, at: int)
    requires
        0 <= at <= code.len(),
    ensures
        at <= angle_run_end(code, at) <= code.len(),
    decreases code.len() - at,
{
    if at < code.len() && code[at] == '<' {
        lemma_angle_run_end(code, at + 1);
    }
}

/// A number ends where its reading stands, or after it, and inside the code.
pub proof fn lemma_number_end(module: ModuleView, start: int, permitted: bool, scan: NumberScan)
    requires
        0 <= scan.at <= module.code.len(),
    ensures
        scan_number(module, start, permitted, scan) matches Ok(end) ==> scan.at <= end
            <= module.code.len(),
    decreases module.code.len() - scan.at,
{
    reveal(scan_number);
    let code = module.code;
    if scan.at < code.len() {
        match number_step(
            code[scan.at],
            scan.at == start,
            permitted,
            digit_after(module, scan.at, scan),
            scan,
        ) {
            NumberStep::Take { follow, then } => {
                if follow {
                    if scan.at + 1 < code.len() && then.class.holds(code[scan.at + 1]) {
                        lemma_number_end(
                            module,
                            start,
                            permitted,
                            NumberScan {
                                at: scan.at + 2,
                                plain: scan.plain && keeps_plain(code[scan.at]) && keeps_plain(
                                    code[scan.at + 1],
                                ),
                                ..then
                            },
                        );
                    }
                } else {
                    lemma_number_end(
                        module,
                        start,
                        permitted,
                        NumberScan {
                            at: scan.at + 1,
                            plain: scan.plain && keeps_plain(code[scan.at]),
                            ..then
                        },
                    );
                }
            },
            _ => {},
        }
    }
}

/// Whether the reading of a number in base two or sixteen lets no decimal point and no
/// other base in.
pub open spec fn based(scan: NumberScan) -> bool {
    scan.class != CharacterRange::Decimal ==> !scan.allow_float && !scan.allow_base_change
}

/// A number that is written in base two or sixteen holds no `.` and, but in front, no `-`:
/// once the base is read, no step takes either, and every step keeps it so.
pub proof fn lemma_based_numbers_hold_no_point(
    c: char,
    empty: bool,
    permitted: bool,
    digit_follows: bool,
    scan: NumberScan,
)
    requires
        based(scan),
    ensures
        number_step(c, empty, permitted, digit_follows, scan) matches NumberStep::Take {
            then,
            ..
        } ==> based(then) && (scan.class != CharacterRange::Decimal ==> c != '.' && (c == '-'
            ==> empty)),
{
}

// ------ What holds of tokens in order
/// Tokens in order lie between `base` and where the last of them ends, each before the
/// next.
pub proof fn lemma_in_order(module: ModuleView, tokens: Seq<TokenView<TokensView>>, base: int)
    requires
        in_order(module, tokens, base),
    ensures
        base <= reach(tokens, base),
        forall|i: int|
            0 <= i < tokens.len() ==> base <= (#[trigger] tokens[i]).location.start
                && tokens[i].location.end <= reach(tokens, base),
        forall|i: int, j: int|
            0 <= i < j < tokens.len() ==> (#[trigger] tokens[i]).location.end <= (
            #[trigger] tokens[j]).location.start,
    decreases tokens.len(),
{
    if tokens.len() > 0 {
        let before = tokens.drop_last();
        lemma_in_order(module, before, base);
        assert forall|i: int| 0 <= i < tokens.len() implies base <= (
        #[trigger] tokens[i]).location.start && tokens[i].location.end <= reach(tokens, base) by {
            if i < before.len() {
                assert(tokens[i] == before[i]);
            }
        }
        assert forall|i: int, j: int| 0 <= i < j < tokens.len() implies (
        #[trigger] tokens[i]).location.end <= (#[trigger] tokens[j]).location.start by {
            assert(tokens[i] == before[i]);
            if j < before.len() {
                assert(tokens[j] == before[j]);
            }
        }
    }
}

/// The tokens of a state that is made of them, but the last, are placed between `low` and
/// the cursor, for any `low` that is not after `base`.
pub proof fn lemma_placed(module: ModuleView, state: LexState, base: int, low: int)
    requires
        made_of(module, state, base),
        0 <= low <= base,
    ensures
        placed_tokens(module, state.tokens, low, state.at),
        state.tokens.len() > 0 ==> placed_tokens(module, state.tokens.drop_last(), low, state.at),
{
    lemma_in_order(module, state.tokens, base);
    assert forall|i: int| 0 <= i < state.tokens.len() implies placed_token(
        module,
        #[trigger] state.tokens[i],
        low,
        state.at,
    ) by {
        assert(placed_token(module, state.tokens[i], base, module.code.len() as int));
    }
    if state.tokens.len() > 0 {
        let before = state.tokens.drop_last();
        assert forall|i: int| 0 <= i < before.len() implies placed_token(
            module,
            #[trigger] before[i],
            low,
            state.at,
        ) by {
            assert(before[i] == state.tokens[i]);
        }
        assert forall|i: int, j: int| 0 <= i < j < before.len() implies (
        #[trigger] before[i]).location.end <= (#[trigger] before[j]).location.start by {
            assert(before[i] == state.tokens[i]);
            assert(before[j] == state.tokens[j]);
        }
    }
}

/// A token that holds nothing inside it and runs from the cursor to `end` is one token
/// more.
pub proof fn lemma_emit(module: ModuleView, state: LexState, kind: TokensView, end: int)
    requires
        0 <= state.at < end <= module.code.len(),
        plain(kind),
    ensures
        added(module, state, #[trigger] state.emit(module, kind, end)),
{
    let next = state.emit(module, kind, end);
    assert(next.tokens.drop_last() =~= state.tokens);
}

/// One token more keeps a state made of its tokens.
pub proof fn lemma_added(module: ModuleView, state: LexState, next: LexState, base: int)
    requires
        made_of(module, state, base),
        added(module, state, next),
    ensures
        made_of(module, next, base),
{
    assert(idle(module.code, next.at, next.at));
    lemma_in_order(module, state.tokens, base);
    assert forall|i: int| 0 <= i < next.tokens.len() implies placed_token(
        module,
        #[trigger] next.tokens[i],
        base,
        module.code.len() as int,
    ) by {
        if i < state.tokens.len() {
            assert(next.tokens[i] == state.tokens[i]);
        } else {
            assert(next.tokens[i] == next.tokens.last());
        }
    }
}

// ------ What holds of the rules
/// A number that begins with a digit, a `.` or a `-` is one token more, which runs from
/// the cursor to the new cursor.
pub proof fn lemma_number(module: ModuleView, state: LexState)
    requires
        0 <= state.at < module.code.len(),
        ({
            let c = module.code[state.at];
            CharacterRange::Decimal.holds(c) || c == '.' || c == '-'
        }),
    ensures
        lex_number(module, state) matches Ok(next) ==> added(module, state, next),
{
    reveal(lex_number);
    reveal(scan_number);
    let code = module.code;
    let permitted = sign_allowed_after(state.previous());
    let scan = number_start(state.at);
    match number_step(
        code[state.at],
        true,
        permitted,
        digit_after(module, state.at, scan),
        scan,
    ) {
        NumberStep::Take { follow, then } => {
            if follow {
                if state.at + 1 < code.len() && then.class.holds(code[state.at + 1]) {
                    lemma_number_end(
                        module,
                        state.at,
                        permitted,
                        NumberScan {
                            at: state.at + 2,
                            plain: scan.plain && keeps_plain(code[state.at]) && keeps_plain(
                                code[state.at + 1],
                            ),
                            ..then
                        },
                    );
                }
            } else {
                lemma_number_end(
                    module,
                    state.at,
                    permitted,
                    NumberScan {
                        at: state.at + 1,
                        plain: scan.plain && keeps_plain(code[state.at]),
                        ..then
                    },
                );
            }
        },
        _ => {},
    }
    match lex_number(module, state) {
        Ok(next) => {
            assert(next.tokens.drop_last() =~= state.tokens);
        },
        Err(_) => {},
    }
}

/// The parts of a string, whose quote stands at `quote`, lie inside the string, and the
/// tokens of their expressions inside them. The string ends after where its reading
/// stands, and inside the code.
pub proof fn lemma_string_parts(
    module: ModuleView,
    toggler: char,
    scope: Seq<Scope<SliceView>>,
    scan: StringScan,
    quote: int,
)
    requires
        0 <= quote < scan.from <= scan.at <= module.code.len(),
        forall|i: int|
            0 <= i < scan.parts.len() ==> placed_part(
                module,
                #[trigger] scan.parts[i],
                quote,
                scan.from,
            ),
    ensures
        lex_string_parts(module, toggler, scope, scan) matches Ok(found) ==> scan.at < found.end
            <= module.code.len() && forall|i: int|
            0 <= i < found.parts.len() ==> placed_part(
                module,
                #[trigger] found.parts[i],
                quote,
                found.end,
            ),
    decreases module.code.len() - scan.at, 1int,
{
    reveal(lex_string_parts);
    reveal(lex_expression);
    let code = module.code;
    if scan.at < code.len() {
        let c = code[scan.at];
        let flushed = scan.flush(module);
        assert forall|i: int| 0 <= i < flushed.len() implies placed_part(
            module,
            #[trigger] flushed[i],
            quote,
            scan.at,
        ) by {
            if i < scan.parts.len() {
                assert(flushed[i] == scan.parts[i]);
                assert(placed_part(module, scan.parts[i], quote, scan.from));
            }
        }
        if c == toggler {
            assert forall|i: int| 0 <= i < flushed.len() implies placed_part(
                module,
                #[trigger] flushed[i],
                quote,
                scan.at + 1,
            ) by {
                assert(placed_part(module, flushed[i], quote, scan.at));
            }
        } else if c == '&' && toggler == '"' {
            if scan.at + 1 < code.len() && code[scan.at + 1] == '(' {
                lemma_expression(module, scan.at, scope);
                match lex_expression(module, scan.at, scope) {
                    Err(_) => {},
                    Ok(inner) => {
                        if scan.at < inner.end <= code.len() {
                            let part = TokenView {
                                kind: StringItemView::Expression(inner.tokens),
                                location: span(module, scan.at, inner.end),
                            };
                            let parts = flushed.push(part);
                            assert forall|i: int| 0 <= i < parts.len() implies placed_part(
                                module,
                                #[trigger] parts[i],
                                quote,
                                inner.end,
                            ) by {
                                if i < flushed.len() {
                                    assert(parts[i] == flushed[i]);
                                    assert(placed_part(module, flushed[i], quote, scan.at));
                                }
                            }
                            lemma_string_parts(
                                module,
                                toggler,
                                inner.scope,
                                StringScan {
                                    at: inner.end,
                                    from: inner.end,
                                    text: Seq::empty(),
                                    parts,
                                },
                                quote,
                            );
                        }
                    },
                }
            } else {
                lemma_string_parts(
                    module,
                    toggler,
                    scope,
                    StringScan { at: scan.at + 1, text: scan.text.push('&'), ..scan },
                    quote,
                );
            }
        } else if c == '\\' {
            if scan.at + 1 < code.len() {
                lemma_string_parts(
                    module,
                    toggler,
                    scope,
                    StringScan {
                        at: scan.at + 2,
                        text: scan.text.push(unescape(code[scan.at + 1])),
                        ..scan
                    },
                    quote,
                );
            }
        } else {
            lemma_string_parts(
                module,
                toggler,
                scope,
                StringScan { at: scan.at + 1, text: scan.text.push(c), ..scan },
                quote,
            );
        }
    }
}

/// The tokens of an expression inside a string, which `&(` opens at `at`, are placed
/// between `at` and where the expression ends.
pub proof fn lemma_expression(module: ModuleView, at: int, scope: Seq<Scope<SliceView>>)
    requires
        0 <= at,
    ensures
        lex_expression(module, at, scope) matches Ok(inner) ==> at + 2 <= inner.end
            <= module.code.len() && placed_tokens(module, inner.tokens, at, inner.end),
    decreases module.code.len() - at, 0int,
{
    reveal(lex_expression);
    reveal(lex_expression_run);
    if at + 2 <= module.code.len() {
        let first = LexState {
            at: at + 2,
            scope: scope.push(Scope::Block(span(module, at, at + 2))),
            tokens: Seq::empty(),
        };
        assert(idle(module.code, at + 2, at + 2));
        lemma_expression_run(module, scope.len() as int, first, at + 2);
        match lex_expression_run(module, scope.len() as int, first) {
            Ok(last) => {
                lemma_placed(module, last, at + 2, at);
            },
            Err(_) => {},
        }
    }
}

/// Stepping through an expression inside a string keeps a state made of its tokens.
pub proof fn lemma_expression_run(module: ModuleView, outer: int, state: LexState, base: int)
    requires
        made_of(module, state, base),
        0 <= state.at,
        state.scope.len() > outer || state.tokens.len() > 0,
    ensures
        lex_expression_run(module, outer, state) matches Ok(last) ==> made_of(module, last, base)
            && state.at <= last.at && last.tokens.len() > 0,
    decreases module.code.len() - state.at, 6int,
{
    reveal(lex_expression_run);
    reveal(lex_step);
    if state.scope.len() > outer && state.at < module.code.len() {
        lemma_step(module, state, base);
        match lex_step(module, state) {
            Err(_) => {},
            Ok(next) => {
                if next.after(module, state.at) {
                    lemma_expression_run(module, outer, next, base);
                }
            },
        }
    }
}

/// A string is one token more, which runs from the cursor to the new cursor.
pub proof fn lemma_string(module: ModuleView, state: LexState)
    requires
        0 <= state.at < module.code.len(),
    ensures
        lex_string(module, state) matches Ok(next) ==> added(module, state, next),
    decreases module.code.len() - state.at, 2int,
{
    let first = StringScan {
        at: state.at + 1,
        from: state.at + 1,
        text: Seq::empty(),
        parts: Seq::empty(),
    };
    let scope = state.scope.push(Scope::String(span(module, state.at, state.at + 1)));
    assert(lex_string(module, state) == string_token(
        module,
        state,
        lex_string_parts(module, module.code[state.at], scope, first),
    )) by {
        reveal(lex_string);
        reveal(lex_string_parts);
    }
    lemma_string_parts(module, module.code[state.at], scope, first, state.at);
    match lex_string(module, state) {
        Ok(next) => {
            assert(next.tokens.drop_last() =~= state.tokens);
        },
        Err(_) => {},
    }
}

/// A literal is one token more, which runs from the cursor to the new cursor.
pub proof fn lemma_literal(module: ModuleView, state: LexState)
    requires
        0 <= state.at < module.code.len(),
    ensures
        lex_literal(module, state) matches Ok(next) ==> added(module, state, next),
    decreases module.code.len() - state.at, 3int,
{
    let code = module.code;
    let c = code[state.at];
    if CharacterRange::Decimal.holds(c) {
        assert(lex_literal(module, state) == lex_number(module, state)) by {
            reveal(lex_literal);
        }
        lemma_number(module, state);
    } else if c == '"' || c == '\'' {
        assert(lex_literal(module, state) == lex_string(module, state)) by {
            reveal(lex_literal);
            reveal(lex_string);
        }
        lemma_string(module, state);
    } else {
        lemma_word_end(code, state.at + 1);
        assert(lex_literal(module, state) matches Ok(next) ==> plain(next.tokens.last().kind)
            && next == state.emit(
            module,
            next.tokens.last().kind,
            word_end(code, state.at + 1),
        )) by {
            reveal(lex_literal);
        }
        match lex_literal(module, state) {
            Ok(next) => {
                lemma_emit(module, state, next.tokens.last().kind, word_end(code, state.at + 1));
            },
            Err(_) => {},
        }
    }
}

/// A scope target is one token more, which runs from the cursor to the new cursor.
pub proof fn lemma_target(module: ModuleView, state: LexState)
    requires
        0 <= state.at < module.code.len(),
    ensures
        lex_target(module, state) matches Ok(next) ==> added(module, state, next),
    decreases module.code.len() - state.at, 4int,
{
    let code = module.code;
    lemma_angle_run_end(code, state.at + 1);
    let run = angle_run_end(code, state.at + 1);
    if run > state.at + 1 {
        assert(lex_target(module, state) matches Ok(next) ==> plain(next.tokens.last().kind)
            && next == state.emit(module, next.tokens.last().kind, run)) by {
            reveal(lex_target);
        }
        match lex_target(module, state) {
            Ok(next) => {
                lemma_emit(module, state, next.tokens.last().kind, run);
            },
            Err(_) => {},
        }
    } else if state.at + 1 < code.len() {
        let inner = LexState { at: state.at + 1, ..state };
        lemma_literal(module, inner);
        assert(lex_target(module, state) matches Ok(next) ==> (lex_literal(module, inner)
            matches Ok(named) && next.at == named.at && next.tokens.last().kind
            is ScopeTarget && next.tokens == state.tokens.push(
            TokenView { kind: next.tokens.last().kind, location: span(module, state.at, named.at) },
        ))) by {
            reveal(lex_target);
            reveal(lex_literal);
        }
        match lex_target(module, state) {
            Ok(next) => {
                assert(next.tokens.drop_last() =~= state.tokens);
            },
            Err(_) => {},
        }
    } else {
        assert(lex_target(module, state) is Err) by {
            reveal(lex_target);
        }
    }
}

/// A variable definition mark keeps a state made of its tokens, and moves the cursor
/// forward.
pub proof fn lemma_definition(module: ModuleView, state: LexState, base: int)
    requires
        made_of(module, state, base),
        0 <= state.at < module.code.len(),
    ensures
        lex_definition(module, state) matches Ok(next) ==> made_of(module, next, base)
            && state.at < next.at && next.tokens.len() > 0,
{
    reveal(lex_definition);
    lemma_in_order(module, state.tokens, base);
    match lex_definition(module, state) {
        Err(_) => {},
        Ok(next) => {
            assert(idle(module.code, next.at, next.at));
            match state.previous() {
                Some(TokensView::Operator(_)) => {
                    let before = state.tokens.drop_last();
                    assert(next.tokens.drop_last() =~= before);
                    assert(in_order(module, before, base));
                    assert(placed_token(
                        module,
                        state.tokens.last(),
                        base,
                        module.code.len() as int,
                    ));
                    assert forall|i: int| 0 <= i < next.tokens.len() implies placed_token(
                        module,
                        #[trigger] next.tokens[i],
                        base,
                        module.code.len() as int,
                    ) by {
                        if i < before.len() {
                            assert(next.tokens[i] == state.tokens[i]);
                        }
                    }
                },
                _ => {
                    lemma_emit(module, state, next.tokens.last().kind, next.at);
                    lemma_added(module, state, next, base);
                },
            }
        },
    }
}

/// Whether `c` opens a token that is one or two characters long, whatever follows.
pub open spec fn opens_symbol(c: char) -> bool {
    c == '!' || c == '(' || c == ')' || c == '{' || c == '}' || c == '+' || c == '*' || c == '/'
        || c == '%' || c == ',' || c == '#' || c == '&' || c == '?' || c == '~' || c == '=' || c
        == '<' || c == '>'
}

/// A symbol is one token more, which runs from the cursor to the new cursor.
pub proof fn lemma_symbol(module: ModuleView, state: LexState)
    requires
        0 <= state.at < module.code.len(),
        opens_symbol(module.code[state.at]),
    ensures
        lex_step(module, state) matches Ok(next) ==> added(module, state, next),
{
    reveal(lex_step);
    match lex_step(module, state) {
        Ok(next) => {
            assert(next.tokens.drop_last() =~= state.tokens);
        },
        Err(_) => {},
    }
}

/// One step keeps a state made of its tokens, and moves the cursor forward.
pub proof fn lemma_step(module: ModuleView, state: LexState, base: int)
    requires
        made_of(module, state, base),
        0 <= state.at < module.code.len(),
    ensures
        lex_step(module, state) matches Ok(next) ==> made_of(module, next, base) && state.at
            < next.at && (next.tokens.len() > 0 || next.scope == state.scope),
    decreases module.code.len() - state.at, 5int,
{
    let code = module.code;
    let c = code[state.at];
    if whitespace(c) {
        assert(lex_step(module, state) == Ok::<LexState, LangErrorView>(
            LexState { at: state.at + 1, ..state },
        )) by {
            reveal(lex_step);
        }
        assert(idle(code, state.at + 1, state.at + 1));
        assert(idle(code, state.at, state.at + 1));
        lemma_idle_joins(code, reach(state.tokens, base), state.at, state.at + 1);
    } else if opens_symbol(c) {
        lemma_symbol(module, state);
        match lex_step(module, state) {
            Ok(next) => {
                lemma_added(module, state, next, base);
            },
            Err(_) => {},
        }
    } else if c == '.' || c == '-' {
        lemma_number(module, state);
        assert(lex_step(module, state) == match lex_number(module, state) {
            Ok(next) => Ok::<LexState, LangErrorView>(next),
            Err(_) => Ok(
                state.emit(
                    module,
                    if c == '.' {
                        TokensView::Accessor
                    } else {
                        TokensView::Operator(Operator::Substract)
                    },
                    state.at + 1,
                ),
            ),
        }) by {
            reveal(lex_step);
        }
        match lex_step(module, state) {
            Ok(next) => {
                match lex_number(module, state) {
                    Ok(_) => {},
                    Err(_) => {
                        lemma_emit(module, state, next.tokens.last().kind, state.at + 1);
                    },
                }
                lemma_added(module, state, next, base);
            },
            Err(_) => {},
        }
    } else if c == '@' {
        assert(lex_step(module, state) == lex_target(module, state)) by {
            reveal(lex_step);
            reveal(lex_target);
        }
        lemma_target(module, state);
        match lex_step(module, state) {
            Ok(next) => {
                lemma_added(module, state, next, base);
            },
            Err(_) => {},
        }
    } else if c == ';' {
        assert(lex_step(module, state) == if state.previous() == Some(
            TokensView::EndOfInstruction,
        ) {
            Ok::<LexState, LangErrorView>(LexState { at: state.at + 1, ..state })
        } else {
            Ok(state.emit(module, TokensView::EndOfInstruction, state.at + 1))
        }) by {
            reveal(lex_step);
        }
        if state.previous() == Some(TokensView::EndOfInstruction) {
            assert(idle(code, state.at + 1, state.at + 1));
            assert(idle(code, state.at, state.at + 1));
            lemma_idle_joins(code, reach(state.tokens, base), state.at, state.at + 1);
        } else {
            lemma_emit(module, state, TokensView::EndOfInstruction, state.at + 1);
            lemma_added(
                module,
                state,
                state.emit(module, TokensView::EndOfInstruction, state.at + 1),
                base,
            );
        }
    } else if c == ':' {
        assert(lex_step(module, state) == lex_definition(module, state)) by {
            reveal(lex_step);
        }
        lemma_definition(module, state, base);
    } else if c == '|' {
        assert(lex_step(module, state) == Ok::<LexState, LangErrorView>(
            LexState { at: comment_end(code, state.at), ..state },
        )) by {
            reveal(lex_step);
        }
        lemma_comment_end(code, state.at);
        assert(idle(code, comment_end(code, state.at), comment_end(code, state.at)));
        assert(idle(code, state.at, comment_end(code, state.at)));
        lemma_idle_joins(code, reach(state.tokens, base), state.at, comment_end(code, state.at));
    } else {
        assert(lex_step(module, state) == lex_literal(module, state)) by {
            reveal(lex_step);
            reveal(lex_literal);
        }
        lemma_literal(module, state);
        match lex_step(module, state) {
            Ok(next) => {
                lemma_added(module, state, next, base);
            },
            Err(_) => {},
        }
    }
}

/// Stepping to the end of the module keeps a state made of its tokens, and ends at the
/// end of the module.
pub proof fn lemma_run(module: ModuleView, state: LexState)
    requires
        made_of(module, state, 0),
        0 <= state.at,
    ensures
        lex_run(module, state) matches Ok(last) ==> made_of(module, last, 0) && last.at
            == module.code.len(),
    decreases module.code.len() - state.at,
{
    reveal(lex_run);
    if state.at < module.code.len() {
        lemma_step(module, state, 0);
        match lex_step(module, state) {
            Err(_) => {},
            Ok(next) => {
                if next.after(module, state.at) {
                    lemma_run(module, next);
                }
            },
        }
    }
}

/// The tokens of a module, taken in order, with the blanks and the comments between them,
/// make up the source of the module: each token is a slice of the module that is not
/// empty, the tokens follow each other in the order of the source, and nothing but blanks,
/// comments and repeated `;` stands before the first, between two of them, and after the
/// last. What a token holds stands inside it, in order too.
pub proof fn lemma_tokens_make_up_the_source(module: ModuleView)
    ensures
        lex(module) matches Ok(tokens) ==> in_order(module, tokens, 0) && idle(
            module.code,
            reach(tokens, 0),
            module.code.len() as int,
        ) && placed_tokens(module, tokens, 0, module.code.len() as int),
{
    let first = LexState { at: 0, scope: Seq::empty(), tokens: Seq::empty() };
    assert(idle(module.code, 0, 0));
    lemma_run(module, first);
    match lex_run(module, first) {
        Ok(last) => {
            lemma_placed(module, last, 0, 0);
        },
        Err(_) => {},
    }
}

} // verus!
