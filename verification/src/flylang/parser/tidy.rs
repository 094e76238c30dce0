use crate::flylang::errors::LangErrorView;
use crate::flylang::lexer::layout::{placed_part, placed_token, placed_tokens};
use crate::flylang::lexer::tokens::{
    Keywords, LiteralsView, StringItemView, Toggleable, TokensView, TokenView, VarDefinitionView,
};
use crate::flylang::module::ModuleView;
use crate::flylang::module::slice::SliceView;
use crate::flylang::parser::ast::NodeView;
use crate::flylang::parser::ast::definables::DefinablesView;
use crate::flylang::parser::ast::definables::class::{
    ClassAttributeView, ClassItemVisibility, ClassMethodView,
};
use crate::flylang::parser::ast::definables::functions::DefineFunctionView;
use crate::flylang::parser::ast::definables::variables::DefineVariableView;
use crate::flylang::parser::ast::expressions::ExpressionsView;
use crate::flylang::parser::ast::expressions::literals::{
    ParsedLiteralsView, ParsedStringItemView, Word,
};
use crate::flylang::parser::ast::expressions::modified::ModifierView;
use crate::flylang::parser::ast::expressions::objects::{
    ArrayView, PrimaryObjectView, StructureView,
};
use crate::flylang::parser::ast::expressions::operations::{OperationsView, OperationView};
use crate::flylang::parser::ast::expressions::reverse::{ReverseKind, ReverseView};
use crate::flylang::parser::ast::instructions::InstructionsView;
use crate::flylang::parser::ast::instructions::breakers::{BreakKindView, BreakView};
use crate::flylang::parser::ast::instructions::conditionnal::IfResultView;
use crate::flylang::parser::ast::instructions::loops::{EachView, LoopParameterView, WhileView};
use crate::flylang::parser::ast::instructions::package::PackageIncludedContentView;
use crate::flylang::parser::grammar::{
    binds_tighter, Branch, branches_from, break_rule, call_rule, class_body, class_branch,
    class_item, class_items, class_rule, ClassBranch, ClassItems, definable_rule, emplacement_of,
    enclosed, ends_expression, ends_lazy, entry_of, execution_of, expected, Expression,
    expression_head, expression_of, expression_rule, expressions_of, fallback_rule, function_rule,
    if_rule, instanciate_rule, Instruction, instruction_rule, literal_rule, loop_name, loop_rule,
    modified_rule, modifiers_list, modifiers_of, node, not_rule, nothing_in, object_items,
    object_rule, operation_rule, parts_at, priority_rule, program, property_rule, reorder,
    scope_rule, ScopeFound, sign_rule, Source, Splitter, Stopper, string_parts, use_emplacement,
    use_getters, use_rule, use_source, value_of, variable_rule, word_of, words_of,
};
use crate::flylang::parser::mods::BehaviorSet;
use vstd::prelude::*;

verus! {

/// Whether the tokens of the source stand in its module, in the order of the source.
pub open spec fn placed(source: Source) -> bool {
    placed_tokens(source.module, source.tokens, 0, source.module.code.len() as int)
}

/// Whether `location` lies in the stretch of the module that the tokens from `from` up to
/// `to` cover.
pub open spec fn within(source: Source, location: SliceView, from: int, to: int) -> bool {
    &&& 0 <= from < to <= source.len()
    &&& location.module == source.module
    &&& source.tokens[from].location.start <= location.start <= location.end
        <= source.tokens[to - 1].location.end
}

/// Whether the instruction that stands before the token at `at`, if one does, was read of
/// the tokens from `from` up to `at`, and is tidy. Where none does, `from` is `at`.
pub open spec fn ready(source: Source, previous: Option<Instruction>, from: int, at: int) -> bool {
    match previous {
        Some(instruction) => within(source, instruction.location, from, at)
            && instruction.kind.tidy(instruction.location),
        None => from == at,
    }
}

/// Whether a rule that began at `at`, with what stood before it from `from` on, made a
/// node that lies in the stretch of the tokens from `from` up to `end`, and moved forward.
pub open spec fn made(source: Source, location: SliceView, from: int, at: int, end: int) -> bool {
    at < end <= source.len() && within(source, location, from, end)
}

/// Whether the instruction was read of the tokens from `from` up to `to`, and is tidy.
pub open spec fn fine(source: Source, instruction: Instruction, from: int, to: int) -> bool {
    within(source, instruction.location, from, to) && instruction.kind.tidy(instruction.location)
}

/// Whether the expression was read of the tokens from `from` up to `to`, and is tidy.
pub open spec fn fine_expression(source: Source, expression: Expression, from: int, to: int)
    -> bool {
    within(source, expression.location, from, to) && expression.kind.tidy(expression.location)
}

/// Whether every instruction of the branch is fine.
pub open spec fn fine_branch(source: Source, branch: Branch, from: int, to: int) -> bool {
    forall|i: int| 0 <= i < branch.len() ==> fine(source, #[trigger] branch[i], from, to)
}

/// Whether every instruction of every branch is fine.
pub open spec fn fine_branches(source: Source, branches: Seq<Branch>, from: int, to: int)
    -> bool {
    forall|i: int|
        0 <= i < branches.len() ==> fine_branch(source, #[trigger] branches[i], from, to)
}

// ------ What holds of placed tokens
/// Of two tokens, the first begins and ends before the second does.
pub proof fn lemma_ordered(source: Source, first: int, second: int)
    requires
        placed(source),
        0 <= first <= second < source.len(),
    ensures
        source.tokens[first].location.module == source.module,
        source.tokens[second].location.module == source.module,
        0 <= source.tokens[first].location.start < source.tokens[first].location.end,
        source.tokens[first].location.start <= source.tokens[second].location.start,
        source.tokens[first].location.end <= source.tokens[second].location.end,
        source.tokens[second].location.start < source.tokens[second].location.end
            <= source.module.code.len(),
        first < second ==> source.tokens[first].location.end
            <= source.tokens[second].location.start,
{
    assert(placed_token(
        source.module,
        source.tokens[first],
        0,
        source.module.code.len() as int,
    ));
    assert(placed_token(
        source.module,
        source.tokens[second],
        0,
        source.module.code.len() as int,
    ));
}

/// The slice of a token lies in the stretch of that token.
pub proof fn lemma_token(source: Source, at: int)
    requires
        placed(source),
        source.has(at),
    ensures
        within(source, source.tokens[at].location, at, at + 1),
{
    lemma_ordered(source, at, at);
}

/// What lies in a stretch of tokens lies in any stretch that holds it.
pub proof fn lemma_widen(source: Source, location: SliceView, from: int, to: int, low: int, high: int)
    requires
        placed(source),
        within(source, location, from, to),
        0 <= low <= from,
        to <= high <= source.len(),
    ensures
        within(source, location, low, high),
{
    lemma_ordered(source, low, from);
    lemma_ordered(source, to - 1, high - 1);
}

/// What joins two slices that lie in stretches of tokens lies in the stretch that holds
/// both stretches, and holds both slices.
pub proof fn lemma_join(
    source: Source,
    first: SliceView,
    from: int,
    middle: int,
    second: SliceView,
    after: int,
    to: int,
)
    requires
        placed(source),
        within(source, first, from, middle),
        within(source, second, after, to),
    ensures
        within(
            source,
            first.join(second),
            if from <= after {
                from
            } else {
                after
            },
            if middle >= to {
                middle
            } else {
                to
            },
        ),
        first.join(second).holds(first),
        first.join(second).holds(second),
        first.join(second).start == if first.start <= second.start {
            first.start
        } else {
            second.start
        },
        first.join(second).end == if first.end >= second.end {
            first.end
        } else {
            second.end
        },
{
    if from <= after {
        lemma_ordered(source, from, after);
    } else {
        lemma_ordered(source, after, from);
    }
    if middle >= to {
        lemma_ordered(source, to - 1, middle - 1);
    } else {
        lemma_ordered(source, middle - 1, to - 1);
    }
    lemma_ordered(source, to - 1, to - 1);
    lemma_ordered(source, middle - 1, middle - 1);
}

/// A slice that begins with the token at `from` and ends with the one before `to` holds
/// whatever lies in the stretch of the tokens from `low` up to `high`, inside its own.
pub proof fn lemma_holds(
    source: Source,
    outer: SliceView,
    from: int,
    to: int,
    inner: SliceView,
    low: int,
    high: int,
)
    requires
        placed(source),
        0 <= from < to <= source.len(),
        outer.module == source.module,
        outer.start <= source.tokens[from].location.start,
        source.tokens[to - 1].location.end <= outer.end,
        within(source, inner, low, high),
        from <= low,
        high <= to,
    ensures
        outer.holds(inner),
{
    lemma_ordered(source, from, low);
    lemma_ordered(source, high - 1, to - 1);
}

/// What is fine in a stretch of tokens is fine in any stretch that holds it.
pub proof fn lemma_fine_branches_widen(
    source: Source,
    branches: Seq<Branch>,
    from: int,
    to: int,
    low: int,
    high: int,
)
    requires
        placed(source),
        fine_branches(source, branches, from, to),
        0 <= low <= from,
        to <= high <= source.len(),
    ensures
        fine_branches(source, branches, low, high),
{
    assert forall|i: int| 0 <= i < branches.len() implies fine_branch(
        source,
        #[trigger] branches[i],
        low,
        high,
    ) by {
        assert(fine_branch(source, branches[i], from, to));
        assert forall|j: int| 0 <= j < branches[i].len() implies fine(
            source,
            #[trigger] branches[i][j],
            low,
            high,
        ) by {
            assert(fine(source, branches[i][j], from, to));
            lemma_widen(source, branches[i][j].location, from, to, low, high);
        }
    }
}

/// Tokens that are placed between two bounds are placed between any two bounds that
/// hold them.
pub proof fn lemma_placed_widen(
    module: ModuleView,
    tokens: Seq<TokenView<TokensView>>,
    low: int,
    high: int,
    lower: int,
    higher: int,
)
    requires
        placed_tokens(module, tokens, low, high),
        0 <= lower <= low,
        high <= higher <= module.code.len(),
    ensures
        placed_tokens(module, tokens, lower, higher),
{
    assert forall|i: int| 0 <= i < tokens.len() implies placed_token(
        module,
        #[trigger] tokens[i],
        lower,
        higher,
    ) by {
        assert(placed_token(module, tokens[i], low, high));
    }
}

// ------ What holds of lists of branches
/// One more instruction that is fine keeps a branch fine.
pub proof fn lemma_fine_push(source: Source, branch: Branch, instruction: Instruction, from: int, to: int)
    requires
        fine_branch(source, branch, from, to),
        fine(source, instruction, from, to),
    ensures
        fine_branch(source, branch.push(instruction), from, to),
{
    assert forall|i: int| 0 <= i < branch.push(instruction).len() implies fine(
        source,
        #[trigger] branch.push(instruction)[i],
        from,
        to,
    ) by {
        if i < branch.len() {
            assert(branch.push(instruction)[i] == branch[i]);
        }
    }
}

/// One more branch that is fine keeps branches fine.
pub proof fn lemma_fine_branches_push(
    source: Source,
    branches: Seq<Branch>,
    branch: Branch,
    from: int,
    to: int,
)
    requires
        fine_branches(source, branches, from, to),
        fine_branch(source, branch, from, to),
    ensures
        fine_branches(source, branches.push(branch), from, to),
{
    assert forall|i: int| 0 <= i < branches.push(branch).len() implies fine_branch(
        source,
        #[trigger] branches.push(branch)[i],
        from,
        to,
    ) by {
        if i < branches.len() {
            assert(branches.push(branch)[i] == branches[i]);
        }
    }
}

/// A branch that is fine in a stretch of tokens is fine in any stretch that holds it.
pub proof fn lemma_fine_branch_widen(
    source: Source,
    branch: Branch,
    from: int,
    to: int,
    low: int,
    high: int,
)
    requires
        placed(source),
        fine_branch(source, branch, from, to),
        0 <= low <= from,
        to <= high <= source.len(),
    ensures
        fine_branch(source, branch, low, high),
{
    assert forall|j: int| 0 <= j < branch.len() implies fine(
        source,
        #[trigger] branch[j],
        low,
        high,
    ) by {
        assert(fine(source, branch[j], from, to));
        lemma_widen(source, branch[j].location, from, to, low, high);
    }
}

/// Whether every expression of the list was read of the tokens from `from` up to `to`,
/// and is tidy.
pub open spec fn fine_expressions(source: Source, expressions: Seq<Expression>, from: int, to: int)
    -> bool {
    forall|i: int|
        0 <= i < expressions.len() ==> fine_expression(source, #[trigger] expressions[i], from, to)
}

/// Whether every word of the list was read of the tokens from `from` up to `to`.
pub open spec fn fine_words(source: Source, words: Seq<NodeView<Word>>, from: int, to: int)
    -> bool {
    forall|i: int| 0 <= i < words.len() ==> within(source, (#[trigger] words[i]).location, from, to)
}

/// The expression that a fine branch holds is fine.
pub proof fn lemma_expression_of(
    source: Source,
    branch: Branch,
    failure: LangErrorView,
    from: int,
    to: int,
)
    requires
        fine_branch(source, branch, from, to),
    ensures
        expression_of(branch, failure) matches Ok(expression) ==> fine_expression(
            source,
            expression,
            from,
            to,
        ),
{
    if branch.len() == 1 {
        assert(fine(source, branch[0], from, to));
    }
}

/// The expressions that fine branches hold are fine.
pub proof fn lemma_expressions_of(
    source: Source,
    branches: Seq<Branch>,
    at: int,
    found: Seq<Expression>,
    failure: LangErrorView,
    from: int,
    to: int,
)
    requires
        fine_branches(source, branches, from, to),
        fine_expressions(source, found, from, to),
    ensures
        expressions_of(branches, at, found, failure) matches Ok(expressions) ==> fine_expressions(
            source,
            expressions,
            from,
            to,
        ),
    decreases branches.len() - at,
{
    if 0 <= at < branches.len() && branches[at].len() == 1 {
        assert(fine_branch(source, branches[at], from, to));
        assert(fine(source, branches[at][0], from, to));
        match branches[at][0].kind {
            InstructionsView::ValueOf(expression) => {
                let one = node(expression, branches[at][0].location);
                assert forall|i: int| 0 <= i < found.push(one).len() implies fine_expression(
                    source,
                    #[trigger] found.push(one)[i],
                    from,
                    to,
                ) by {
                    if i < found.len() {
                        assert(found.push(one)[i] == found[i]);
                    }
                }
                lemma_expressions_of(source, branches, at + 1, found.push(one), failure, from, to);
            },
            _ => {},
        }
    }
}

/// The word that a fine branch holds lies where the branch does.
pub proof fn lemma_word_of(source: Source, branch: Branch, failure: LangErrorView, from: int, to: int)
    requires
        fine_branch(source, branch, from, to),
    ensures
        word_of(branch, failure) matches Ok(word) ==> within(source, word.location, from, to),
{
    if branch.len() == 1 {
        assert(fine(source, branch[0], from, to));
    }
}

/// The words that fine branches hold lie where the branches do.
pub proof fn lemma_words_of(
    source: Source,
    branches: Seq<Branch>,
    at: int,
    upto: int,
    found: Seq<NodeView<Word>>,
    failure: LangErrorView,
    from: int,
    to: int,
)
    requires
        fine_branches(source, branches, from, to),
        fine_words(source, found, from, to),
    ensures
        words_of(branches, at, upto, found, failure) matches Ok(words) ==> fine_words(
            source,
            words,
            from,
            to,
        ),
    decreases upto - at,
{
    if 0 <= at < upto && upto <= branches.len() {
        assert(fine_branch(source, branches[at], from, to));
        lemma_word_of(source, branches[at], failure, from, to);
        match word_of(branches[at], failure) {
            Ok(word) => {
                assert forall|i: int| 0 <= i < found.push(word).len() implies within(
                    source,
                    (#[trigger] found.push(word)[i]).location,
                    from,
                    to,
                ) by {
                    if i < found.len() {
                        assert(found.push(word)[i] == found[i]);
                    }
                }
                lemma_words_of(source, branches, at + 1, upto, found.push(word), failure, from, to);
            },
            Err(_) => {},
        }
    }
}

// ------ What holds of the rules
/// The instructions of a source whose tokens are placed are tidy, and lie where the tokens
/// do.
pub proof fn lemma_program(source: Source)
    requires
        placed(source),
    ensures
        program(source) matches Ok(instructions) ==> fine_branch(
            source,
            instructions,
            0,
            source.len(),
        ),
    decreases source.tokens, source.len(), 40int,
{
    reveal(program);
    reveal(branches_from);
    lemma_branches(
        source,
        0,
        0,
        Stopper::End,
        Splitter::Nothing,
        BehaviorSet::none(),
        Seq::empty(),
        Seq::empty(),
    );
    match branches_from(
        source,
        0,
        Stopper::End,
        Splitter::Nothing,
        BehaviorSet::none(),
        Seq::empty(),
        Seq::empty(),
    ) {
        Ok((branches, stop)) => {
            assert(fine_branch(source, branches.last(), 0, stop));
            if branches.last().len() > 0 {
                assert(fine(source, branches.last()[0], 0, stop));
                lemma_fine_branch_widen(source, branches.last(), 0, stop, 0, source.len());
            }
        },
        Err(_) => {},
    }
}

/// Branches of instructions that are read of placed tokens are fine.
pub proof fn lemma_branches(
    source: Source,
    low: int,
    at: int,
    stopper: Stopper,
    splitter: Splitter,
    persistent: BehaviorSet,
    done: Seq<Branch>,
    current: Branch,
)
    requires
        placed(source),
        0 <= low <= at <= source.len(),
        fine_branches(source, done, low, at),
        fine_branch(source, current, low, at),
    ensures
        branches_from(source, at, stopper, splitter, persistent, done, current) matches Ok(
            (branches, stop),
        ) ==> at <= stop <= source.len() && fine_branches(source, branches, low, stop)
            && branches.len() >= 1,
    decreases source.tokens, source.len() - at, 30int,
{
    reveal(branches_from);
    reveal(instruction_rule);
    if !source.has(at) {
        lemma_fine_branches_push(source, done, current, low, at);
    } else {
        let token = source.tokens[at];
        if stopper.stops(token.kind) {
            lemma_fine_branches_push(source, done, current, low, at);
        } else if splitter.splits(token.kind) {
            lemma_fine_branches_push(source, done, current, low, at);
            lemma_fine_branches_widen(source, done.push(current), low, at, low, at + 1);
            lemma_branches(
                source,
                low,
                at + 1,
                stopper,
                splitter,
                persistent,
                done.push(current),
                Seq::empty(),
            );
        } else if token.kind == TokensView::EndOfInstruction {
            lemma_fine_branches_widen(source, done, low, at, low, at + 1);
            lemma_fine_branch_widen(source, current, low, at, low, at + 1);
            lemma_branches(source, low, at + 1, stopper, splitter, persistent, done, current);
        } else {
            lemma_instruction(source, at, at, persistent, None);
            match instruction_rule(source, at, persistent, None) {
                Err(_) => {},
                Ok((instruction, end)) => {
                    if source.forward(at, end) {
                        lemma_fine_branches_widen(source, done, low, at, low, end);
                        lemma_fine_branch_widen(source, current, low, at, low, end);
                        lemma_widen(source, instruction.location, at, end, low, end);
                        lemma_fine_push(source, current, instruction, low, end);
                        lemma_branches(
                            source,
                            low,
                            end,
                            stopper,
                            splitter,
                            persistent,
                            done,
                            current.push(instruction),
                        );
                    }
                },
            }
        }
    }
}

/// Branches that are read between a delimiter and the token that closes it are fine, and
/// that token stands there.
pub proof fn lemma_enclosed(
    source: Source,
    at: int,
    stopper: Stopper,
    splitter: Splitter,
    persistent: BehaviorSet,
)
    requires
        placed(source),
        0 <= at <= source.len(),
    ensures
        enclosed(source, at, stopper, splitter, persistent) matches Ok((branches, close)) ==> at
            <= close < source.len() && fine_branches(source, branches, at, close)
            && branches.len() >= 1,
    decreases source.tokens, source.len() - at, 31int,
{
    reveal(enclosed);
    reveal(branches_from);
    lemma_branches(source, at, at, stopper, splitter, persistent, Seq::empty(), Seq::empty());
}

/// A scope that is read of placed tokens is fine.
pub proof fn lemma_scope(source: Source, at: int)
    requires
        placed(source),
        0 <= at,
    ensures
        scope_rule(source, at) matches Ok(scope) ==> at <= scope.open < scope.close < source.len()
            && fine_branches(source, scope.branches, scope.open + 1, scope.close)
            && scope.branches.len() >= 1 && source.tokens[scope.open].kind == TokensView::Block(
            crate::flylang::lexer::tokens::Toggleable::Openning,
        ) && match scope.target {
            Some(target) => scope.open == at + 1 && target.location
                == source.tokens[at].location,
            None => scope.open == at,
        },
    decreases source.tokens, source.len() - at, 32int,
{
    reveal(scope_rule);
    reveal(enclosed);
    if source.has(at) {
        match source.tokens[at].kind {
            TokensView::ScopeTarget(_) => {
                if source.has(at + 1) {
                    lemma_enclosed(
                        source,
                        at + 2,
                        Stopper::Block,
                        Splitter::ArgSeparator,
                        BehaviorSet::none(),
                    );
                }
            },
            TokensView::Block(_) => {
                lemma_enclosed(
                    source,
                    at + 1,
                    Stopper::Block,
                    Splitter::ArgSeparator,
                    BehaviorSet::none(),
                );
            },
            _ => {},
        }
    }
}

/// An instruction that is read of placed tokens is tidy, and lies where its tokens do.
pub proof fn lemma_instruction(
    source: Source,
    from: int,
    at: int,
    behaviors: BehaviorSet,
    previous: Option<Instruction>,
)
    requires
        placed(source),
        ready(source, previous, from, at),
    ensures
        instruction_rule(source, at, behaviors, previous) matches Ok((found, end)) ==> made(
            source,
            found.location,
            from,
            at,
            end,
        ) && found.kind.tidy(found.location),
    decreases source.tokens, source.len() - at, 20int,
{
    if source.has(at) {
        let token = source.tokens[at];
        match token.kind {
            TokensView::EndOfInstruction => {
                match previous {
                    Some(instruction) => {
                        lemma_widen(source, instruction.location, from, at, from, at + 1);
                    },
                    None => {},
                }
                reveal(instruction_rule);
            },
            TokensView::Keyword(Keywords::If) => {
                lemma_if(source, from, at, behaviors, previous);
                assert(instruction_rule(source, at, behaviors, previous) == match if_rule(
                    source,
                    at,
                    behaviors,
                    previous,
                ) {
                    Err(error) => Err::<(Instruction, int), LangErrorView>(error),
                    Ok((found, end)) => Ok(
                        (
                            match found.kind {
                                IfResultView::If(condition) => node(
                                    InstructionsView::If(condition),
                                    found.location,
                                ),
                                IfResultView::Ternary(ternary) => node(
                                    InstructionsView::ValueOf(ExpressionsView::Ternary(ternary)),
                                    found.location,
                                ),
                            },
                            end,
                        ),
                    ),
                }) by {
                    reveal(instruction_rule);
                    reveal(if_rule);
                }
                match if_rule(source, at, behaviors, previous) {
                    Ok((found, end)) => {
                        match found.kind {
                            IfResultView::Ternary(ternary) => {
                                assert(ternary.tidy(found.location));
                                assert(ExpressionsView::Ternary(ternary).tidy(found.location));
                            },
                            IfResultView::If(condition) => {
                                assert(condition.tidy(found.location));
                            },
                        }
                    },
                    Err(_) => {},
                }
            },
            TokensView::Keyword(Keywords::While)
            | TokensView::Keyword(Keywords::Until)
            | TokensView::Keyword(Keywords::Each) => {
                lemma_loop(source, from, at, previous);
                assert(instruction_rule(source, at, behaviors, previous) == match loop_rule(
                    source,
                    at,
                    previous,
                ) {
                    Err(error) => Err::<(Instruction, int), LangErrorView>(error),
                    Ok((found, end)) => Ok(
                        (node(InstructionsView::Loop(found.kind), found.location), end),
                    ),
                }) by {
                    reveal(instruction_rule);
                    reveal(loop_rule);
                }
            },
            TokensView::Keyword(Keywords::Return)
            | TokensView::Keyword(Keywords::Pass)
            | TokensView::Keyword(Keywords::Stop) => {
                lemma_break(source, from, at, behaviors, previous);
                assert(instruction_rule(source, at, behaviors, previous) == match break_rule(
                    source,
                    at,
                    behaviors,
                    previous,
                ) {
                    Err(error) => Err::<(Instruction, int), LangErrorView>(error),
                    Ok((found, end)) => Ok(
                        (node(InstructionsView::Break(found.kind), found.location), end),
                    ),
                }) by {
                    reveal(instruction_rule);
                    reveal(break_rule);
                }
            },
            TokensView::Keyword(Keywords::Use) => {
                lemma_use(source, from, at, previous);
                assert(instruction_rule(source, at, behaviors, previous) == match use_rule(
                    source,
                    at,
                    previous,
                ) {
                    Err(error) => Err::<(Instruction, int), LangErrorView>(error),
                    Ok((found, end)) => Ok(
                        (node(InstructionsView::Use(found.kind), found.location), end),
                    ),
                }) by {
                    reveal(instruction_rule);
                    reveal(use_rule);
                }
            },
            _ => {
                let eager = BehaviorSet { lazy: false, ..behaviors };
                lemma_expression(source, from, at, eager, previous);
                assert(instruction_rule(source, at, behaviors, previous) == match expression_rule(
                    source,
                    at,
                    eager,
                    previous,
                ) {
                    Err(error) => Err::<(Instruction, int), LangErrorView>(error),
                    Ok((found, end)) => Ok((value_of(found), end)),
                }) by {
                    reveal(instruction_rule);
                    reveal(expression_rule);
                }
            },
        }
    } else {
        reveal(instruction_rule);
    }
}

/// An expression that is read of placed tokens is tidy, and lies where its tokens do.
pub proof fn lemma_expression(
    source: Source,
    from: int,
    at: int,
    behaviors: BehaviorSet,
    previous: Option<Instruction>,
)
    requires
        placed(source),
        ready(source, previous, from, at),
    ensures
        expression_rule(source, at, behaviors, previous) matches Ok((found, end)) ==> made(
            source,
            found.location,
            from,
            at,
            end,
        ) && found.kind.tidy(found.location),
    decreases source.tokens, source.len() - at, 10int,
{
    reveal(expression_rule);
    reveal(expression_head);
    lemma_head(source, from, at, behaviors, previous);
    match expression_head(source, at, behaviors, previous) {
        Err(_) => {},
        Ok(head) => {
            if head.closed || !source.has(head.end) || !source.forward(at, head.end)
                || ends_expression(source.tokens[head.end].kind) || (behaviors.lazy && ends_lazy(
                source.tokens[head.end].kind,
            )) {
            } else {
                lemma_expression(
                    source,
                    from,
                    head.end,
                    behaviors,
                    Some(value_of(head.expression)),
                );
            }
        },
    }
}

/// The head of an expression that is read of placed tokens is tidy, and lies where its
/// tokens do.
pub proof fn lemma_head(
    source: Source,
    from: int,
    at: int,
    behaviors: BehaviorSet,
    previous: Option<Instruction>,
)
    requires
        placed(source),
        ready(source, previous, from, at),
    ensures
        expression_head(source, at, behaviors, previous) matches Ok(head) ==> made(
            source,
            head.expression.location,
            from,
            at,
            head.end,
        ) && head.expression.kind.tidy(head.expression.location),
    decreases source.tokens, source.len() - at, 9int,
{
    reveal(expression_head);
    reveal(literal_rule);
    reveal(definable_rule);
    reveal(if_rule);
    reveal(instanciate_rule);
    reveal(modified_rule);
    reveal(object_rule);
    reveal(not_rule);
    reveal(sign_rule);
    reveal(operation_rule);
    reveal(call_rule);
    reveal(priority_rule);
    reveal(property_rule);
    if source.has(at) {
        match source.tokens[at].kind {
            TokensView::Literal(_) => {
                lemma_literal(source, from, at, previous);
            },
            TokensView::VarDef(_)
            | TokensView::Keyword(crate::flylang::lexer::tokens::Keywords::Fn)
            | TokensView::Keyword(crate::flylang::lexer::tokens::Keywords::Cs) => {
                lemma_definable(source, from, at, behaviors, previous);
            },
            TokensView::Keyword(crate::flylang::lexer::tokens::Keywords::If) => {
                lemma_if(source, from, at, BehaviorSet { lazy: true, ..behaviors }, previous);
            },
            TokensView::Keyword(crate::flylang::lexer::tokens::Keywords::New) => {
                lemma_instanciate(source, from, at, behaviors, previous);
            },
            TokensView::Modifier => {
                lemma_modified(source, from, at, behaviors, previous);
            },
            TokensView::Object(crate::flylang::lexer::tokens::Toggleable::Openning) => {
                lemma_object(source, from, at, previous);
            },
            TokensView::Not => {
                lemma_not(source, from, at, behaviors, previous);
            },
            TokensView::Operator(_) | TokensView::BinaryOperator(_) | TokensView::Comparison(_) => {
                if previous is None && source.tokens[at].kind == TokensView::Operator(
                    crate::flylang::lexer::tokens::Operator::Substract,
                ) {
                    lemma_sign(source, at, behaviors);
                } else {
                    lemma_operation(source, from, at, behaviors, previous);
                }
            },
            TokensView::Block(crate::flylang::lexer::tokens::Toggleable::Openning) => {
                match previous {
                    Some(_) => {
                        lemma_call(source, from, at, previous);
                    },
                    None => {
                        lemma_priority(source, at, behaviors);
                    },
                }
            },
            TokensView::Accessor => {
                lemma_property(source, from, at, behaviors, previous);
            },
            _ => {},
        }
    }
}

/// What `!` opens, read of placed tokens, is tidy, and lies where its tokens do.
pub proof fn lemma_not(
    source: Source,
    from: int,
    at: int,
    behaviors: BehaviorSet,
    previous: Option<Instruction>,
)
    requires
        placed(source),
        ready(source, previous, from, at),
    ensures
        not_rule(source, at, behaviors, previous) matches Ok(head) ==> made(
            source,
            head.expression.location,
            from,
            at,
            head.end,
        ) && head.expression.kind.tidy(head.expression.location),
    decreases source.tokens, source.len() - at, 5int,
{
    reveal(not_rule);
    reveal(operation_rule);
    reveal(expression_rule);
    if source.has(at) && source.has(at + 1) {
        let token = source.tokens[at];
        lemma_token(source, at);
        match previous {
            Some(instruction) => {
                let after = source.tokens[at + 1].kind;
                if after is Comparison || after is BinaryOperator {
                    lemma_widen(source, instruction.location, from, at, from, at + 1);
                    lemma_operation(source, from, at + 1, behaviors, previous);
                    match operation_rule(source, at + 1, behaviors, previous) {
                        Ok((found, end)) => {
                            lemma_join(source, token.location, at, at + 1, found.location, from, end);
                            let inner = node(
                                ExpressionsView::Operation(found.kind),
                                found.location,
                            );
                            let reverse = ReverseView {
                                kind: ReverseKind::Boolean,
                                expression: Box::new(inner),
                            };
                            assert(inner.kind.tidy(inner.location));
                            assert(reverse.tidy(token.location.join(found.location)));
                        },
                        Err(_) => {},
                    }
                }
            },
            None => {
                lemma_expression(
                    source,
                    at + 1,
                    at + 1,
                    BehaviorSet { lazy: true, ..behaviors },
                    None,
                );
                match expression_rule(
                    source,
                    at + 1,
                    BehaviorSet { lazy: true, ..behaviors },
                    None,
                ) {
                    Ok((found, end)) => {
                        lemma_join(source, token.location, at, at + 1, found.location, at + 1, end);
                        let reverse = ReverseView {
                            kind: ReverseKind::Boolean,
                            expression: Box::new(found),
                        };
                        assert(reverse.tidy(token.location.join(found.location)));
                    },
                    Err(_) => {},
                }
            },
        }
    }
}

/// What `-` opens, read of placed tokens, is tidy, and lies where its tokens do. The sign
/// of a number is never turned over.
pub proof fn lemma_sign(source: Source, at: int, behaviors: BehaviorSet)
    requires
        placed(source),
    ensures
        sign_rule(source, at, behaviors) matches Ok(head) ==> made(
            source,
            head.expression.location,
            at,
            at,
            head.end,
        ) && head.expression.kind.tidy(head.expression.location),
    decreases source.tokens, source.len() - at, 5int,
{
    reveal(sign_rule);
    reveal(expression_rule);
    if source.has(at) && source.has(at + 1) {
        let token = source.tokens[at];
        lemma_token(source, at);
        lemma_expression(source, at + 1, at + 1, BehaviorSet { lazy: true, ..behaviors }, None);
        match expression_rule(source, at + 1, BehaviorSet { lazy: true, ..behaviors }, None) {
            Ok((found, end)) => {
                let location = token.location.join(found.location);
                lemma_join(source, token.location, at, at + 1, found.location, at + 1, end);
                if found.kind == ExpressionsView::Literal(ParsedLiteralsView::Number) {
                    assert(ParsedLiteralsView::Number.tidy(location));
                    assert(found.kind.tidy(location));
                } else {
                    let reverse = ReverseView {
                        kind: ReverseKind::Sign,
                        expression: Box::new(found),
                    };
                    assert(reverse.tidy(location));
                }
            },
            Err(_) => {},
        }
    }
}

/// What `(` opens where nothing stands before it, read of placed tokens, is tidy, and
/// lies where its tokens do.
pub proof fn lemma_priority(source: Source, at: int, behaviors: BehaviorSet)
    requires
        placed(source),
    ensures
        priority_rule(source, at, behaviors) matches Ok(head) ==> made(
            source,
            head.expression.location,
            at,
            at,
            head.end,
        ) && head.expression.kind.tidy(head.expression.location),
    decreases source.tokens, source.len() - at, 5int,
{
    reveal(priority_rule);
    reveal(expression_rule);
    if source.has(at) && source.has(at + 1) {
        let token = source.tokens[at];
        lemma_token(source, at);
        lemma_token(source, at + 1);
        if source.tokens[at + 1].kind == TokensView::Block(crate::flylang::lexer::tokens::Toggleable::Closing) {
            lemma_join(
                source,
                token.location,
                at,
                at + 1,
                source.tokens[at + 1].location,
                at + 1,
                at + 2,
            );
            assert(ParsedLiteralsView::Empty.tidy(
                token.location.join(source.tokens[at + 1].location),
            ));
        } else {
            lemma_expression(source, at + 1, at + 1, BehaviorSet { lazy: false, ..behaviors }, None);
            match expression_rule(source, at + 1, BehaviorSet { lazy: false, ..behaviors }, None) {
                Ok((found, end)) => {
                    if source.has(end) {
                        lemma_token(source, end);
                        let outer = token.location.join(source.tokens[end].location);
                        lemma_join(
                            source,
                            token.location,
                            at,
                            at + 1,
                            source.tokens[end].location,
                            end,
                            end + 1,
                        );
                        lemma_holds(source, outer, at, end + 1, found.location, at + 1, end);
                    }
                },
                Err(_) => {},
            }
        }
    }
}

/// The parts of a string that is a placed token lie inside the string, and are tidy.
pub proof fn lemma_string_parts(
    source: Source,
    at: int,
    from: int,
    found: Seq<NodeView<ParsedStringItemView>>,
)
    requires
        placed(source),
        source.has(at),
        forall|i: int|
            0 <= i < found.len() ==> source.tokens[at].location.holds(
                (#[trigger] found[i]).location,
            ) && found[i].kind.tidy(found[i].location),
    ensures
        string_parts(source, at, from, found) matches Ok(parts) ==> forall|i: int|
            0 <= i < parts.len() ==> source.tokens[at].location.holds(
                (#[trigger] parts[i]).location,
            ) && parts[i].kind.tidy(parts[i].location),
    decreases source.tokens, source.len() - at, 2int, parts_at(source, at).len() - from,
{
    reveal(string_parts);
    reveal(program);
    let token = source.tokens[at];
    let parts = parts_at(source, at);
    if 0 <= from < parts.len() {
        match token.kind {
            TokensView::Literal(LiteralsView::String(items)) => {
                assert(placed_token(source.module, token, 0, source.module.code.len() as int));
                assert(placed_part(
                    source.module,
                    items[from],
                    token.location.start,
                    token.location.end,
                ));
                match items[from].kind {
                    StringItemView::Literal(text) => {
                        let part = node(ParsedStringItemView::Literal(text), items[from].location);
                        assert forall|i: int| 0 <= i < found.push(part).len() implies token.location.holds(
                            (#[trigger] found.push(part)[i]).location,
                        ) && found.push(part)[i].kind.tidy(found.push(part)[i].location) by {
                            if i < found.len() {
                                assert(found.push(part)[i] == found[i]);
                            }
                        }
                        lemma_string_parts(source, at, from + 1, found.push(part));
                    },
                    StringItemView::Expression(tokens) => {
                        let inner = Source { module: source.module, tokens };
                        lemma_placed_widen(
                            source.module,
                            tokens,
                            items[from].location.start,
                            items[from].location.end,
                            0,
                            source.module.code.len() as int,
                        );
                        lemma_program(inner);
                        match program(inner) {
                            Err(_) => {},
                            Ok(instructions) => {
                                let failure = LangErrorView::UnableToParse(
                                    items[from].location,
                                    "Expected a single expression"@,
                                );
                                lemma_expression_of(inner, instructions, failure, 0, inner.len());
                                match expression_of(instructions, failure) {
                                    Err(_) => {},
                                    Ok(expression) => {
                                        assert(placed_token(
                                            source.module,
                                            tokens[0],
                                            items[from].location.start,
                                            items[from].location.end,
                                        ));
                                        assert(placed_token(
                                            source.module,
                                            tokens[inner.len() - 1],
                                            items[from].location.start,
                                            items[from].location.end,
                                        ));
                                        let part = node(
                                            ParsedStringItemView::Expression(Box::new(expression)),
                                            items[from].location,
                                        );
                                        assert forall|i: int|
                                            0 <= i < found.push(part).len() implies token.location.holds(
                                            (#[trigger] found.push(part)[i]).location,
                                        ) && found.push(part)[i].kind.tidy(
                                            found.push(part)[i].location,
                                        ) by {
                                            if i < found.len() {
                                                assert(found.push(part)[i] == found[i]);
                                            }
                                        }
                                        lemma_string_parts(source, at, from + 1, found.push(part));
                                    },
                                }
                            },
                        }
                    },
                }
            },
            _ => {},
        }
    }
}

/// A literal that is read of placed tokens is tidy, and lies where its token does.
pub proof fn lemma_literal(source: Source, from: int, at: int, previous: Option<Instruction>)
    requires
        placed(source),
        ready(source, previous, from, at),
    ensures
        literal_rule(source, at, previous) matches Ok((found, end)) ==> made(
            source,
            found.location,
            from,
            at,
            end,
        ) && found.kind.tidy(found.location),
    decreases source.tokens, source.len() - at, 5int,
{
    reveal(literal_rule);
    reveal(string_parts);
    if source.has(at) && previous is None {
        lemma_token(source, at);
        match source.tokens[at].kind {
            TokensView::Literal(LiteralsView::String(_)) => {
                lemma_string_parts(source, at, 0, Seq::empty());
            },
            _ => {},
        }
    }
}

/// The right operand of an operator, reordered, is fine.
pub proof fn lemma_reorder(
    source: Source,
    from: int,
    at: int,
    behaviors: BehaviorSet,
    current: TokensView,
    right: Expression,
)
    requires
        placed(source),
        fine_expression(source, right, from, at),
    ensures
        reorder(source, at, behaviors, current, right) matches Ok((found, end)) ==> at <= end
            <= source.len() && fine_expression(source, found, from, end),
    decreases source.tokens, source.len() - at, 11int,
{
    reveal(reorder);
    reveal(expression_rule);
    if source.has(at) {
        let next = source.tokens[at];
        if next.kind == TokensView::Not && !source.has(at + 1) {
        } else {
            let coming = if next.kind == TokensView::Not {
                source.tokens[at + 1].kind
            } else {
                next.kind
            };
            if binds_tighter(coming, current) {
                lemma_expression(
                    source,
                    from,
                    at,
                    BehaviorSet { lazy: true, ..behaviors },
                    Some(value_of(right)),
                );
                match expression_rule(
                    source,
                    at,
                    BehaviorSet { lazy: true, ..behaviors },
                    Some(value_of(right)),
                ) {
                    Err(_) => {},
                    Ok((found, end)) => {
                        if source.forward(at, end) {
                            lemma_reorder(source, from, end, behaviors, current, found);
                        }
                    },
                }
            }
        }
    }
}

/// An operation that is read of placed tokens is tidy, and lies where its tokens do.
pub proof fn lemma_operation(
    source: Source,
    from: int,
    at: int,
    behaviors: BehaviorSet,
    previous: Option<Instruction>,
)
    requires
        placed(source),
        ready(source, previous, from, at),
    ensures
        operation_rule(source, at, behaviors, previous) matches Ok((found, end)) ==> made(
            source,
            found.location,
            from,
            at,
            end,
        ) && found.kind.tidy(found.location),
    decreases source.tokens, source.len() - at, 5int,
{
    reveal(operation_rule);
    reveal(expression_rule);
    reveal(reorder);
    if source.has(at) && source.has(at + 1) {
        let token = source.tokens[at];
        match previous {
            None => {},
            Some(left) => {
                lemma_expression(
                    source,
                    at + 1,
                    at + 1,
                    BehaviorSet { lazy: true, ..behaviors },
                    None,
                );
                match expression_rule(
                    source,
                    at + 1,
                    BehaviorSet { lazy: true, ..behaviors },
                    None,
                ) {
                    Err(_) => {},
                    Ok((first, after)) => {
                        match left.kind {
                            InstructionsView::ValueOf(expression) => {
                                if source.forward(at, after) {
                                    lemma_reorder(
                                        source,
                                        at + 1,
                                        after,
                                        behaviors,
                                        token.kind,
                                        first,
                                    );
                                    match reorder(source, after, behaviors, token.kind, first) {
                                        Err(_) => {},
                                        Ok((right, end)) => {
                                            let outer = left.location.join(right.location);
                                            lemma_join(
                                                source,
                                                left.location,
                                                from,
                                                at,
                                                right.location,
                                                at + 1,
                                                end,
                                            );
                                            lemma_token(source, at);
                                            lemma_ordered(source, at - 1, at);
                                            lemma_ordered(source, at, at + 1);
                                            assert(outer.holds(token.location));
                                        },
                                    }
                                }
                            },
                            _ => {},
                        }
                    },
                }
            },
        }
    }
}

/// A call that is read of placed tokens is tidy, and lies where its tokens do.
pub proof fn lemma_call(source: Source, from: int, at: int, previous: Option<Instruction>)
    requires
        placed(source),
        ready(source, previous, from, at),
    ensures
        call_rule(source, at, previous) matches Ok((found, end)) ==> made(
            source,
            found.location,
            from,
            at,
            end,
        ) && found.kind.tidy(found.location),
    decreases source.tokens, source.len() - at, 5int,
{
    reveal(call_rule);
    reveal(enclosed);
    if source.has(at) {
        let opener = source.tokens[at];
        match previous {
            None => {},
            Some(callable) => {
                match callable.kind {
                    InstructionsView::ValueOf(called) => {
                        lemma_enclosed(
                            source,
                            at + 1,
                            Stopper::Block,
                            Splitter::ArgSeparator,
                            BehaviorSet::none(),
                        );
                        match enclosed(
                            source,
                            at + 1,
                            Stopper::Block,
                            Splitter::ArgSeparator,
                            BehaviorSet::none(),
                        ) {
                            Err(_) => {},
                            Ok((branches, close)) => {
                                let closer = source.tokens[close].location;
                                let failure = LangErrorView::UnableToParse(
                                    opener.location.join(closer),
                                    "One of the argument is not a valid expression"@,
                                );
                                lemma_token(source, close);
                                let outer = callable.location.join(closer);
                                lemma_join(
                                    source,
                                    callable.location,
                                    from,
                                    at,
                                    closer,
                                    close,
                                    close + 1,
                                );
                                lemma_ordered(source, at - 1, at);
                                lemma_expressions_of(
                                    source,
                                    branches,
                                    0,
                                    Seq::empty(),
                                    failure,
                                    at + 1,
                                    close,
                                );
                                if !nothing_in(branches) {
                                    match expressions_of(branches, 0, Seq::empty(), failure) {
                                        Err(_) => {},
                                        Ok(arguments) => {
                                            assert forall|i: int|
                                                0 <= i < arguments.len() implies outer.holds(
                                                (#[trigger] arguments[i]).location,
                                            ) && arguments[i].kind.tidy(arguments[i].location) by {
                                                assert(fine_expression(
                                                    source,
                                                    arguments[i],
                                                    at + 1,
                                                    close,
                                                ));
                                                lemma_ordered(source, at, at + 1);
                                                lemma_ordered(source, at + 1, close - 1);
                                                lemma_ordered(source, close - 1, close);
                                            }
                                        },
                                    }
                                }
                            },
                        }
                    },
                    _ => {},
                }
            },
        }
    }
}

/// The reading of a member that is read of placed tokens is tidy, and lies where its
/// tokens do.
pub proof fn lemma_property(
    source: Source,
    from: int,
    at: int,
    behaviors: BehaviorSet,
    previous: Option<Instruction>,
)
    requires
        placed(source),
        ready(source, previous, from, at),
    ensures
        property_rule(source, at, behaviors, previous) matches Ok((found, end)) ==> made(
            source,
            found.location,
            from,
            at,
            end,
        ) && found.kind.tidy(found.location),
    decreases source.tokens, source.len() - at, 5int,
{
    reveal(property_rule);
    reveal(expression_rule);
    if source.has(at) && source.has(at + 1) {
        match previous {
            None => {},
            Some(owner) => {
                let next = source.tokens[at + 1];
                lemma_token(source, at + 1);
                match next.kind {
                    TokensView::Literal(_) => {
                        lemma_join(
                            source,
                            owner.location,
                            from,
                            at,
                            next.location,
                            at + 1,
                            at + 2,
                        );
                    },
                    TokensView::Block(_) => {
                        lemma_expression(
                            source,
                            at + 1,
                            at + 1,
                            BehaviorSet { lazy: true, ..behaviors },
                            None,
                        );
                        match expression_rule(
                            source,
                            at + 1,
                            BehaviorSet { lazy: true, ..behaviors },
                            None,
                        ) {
                            Err(_) => {},
                            Ok((found, end)) => {
                                let read = next.location.join(found.location);
                                lemma_join(
                                    source,
                                    next.location,
                                    at + 1,
                                    at + 2,
                                    found.location,
                                    at + 1,
                                    end,
                                );
                                lemma_join(source, owner.location, from, at, read, at + 1, end);
                            },
                        }
                    },
                    _ => {},
                }
            },
        }
    }
}

/// The making of an object that is read of placed tokens is tidy, and lies where its
/// tokens do.
pub proof fn lemma_instanciate(
    source: Source,
    from: int,
    at: int,
    behaviors: BehaviorSet,
    previous: Option<Instruction>,
)
    requires
        placed(source),
        ready(source, previous, from, at),
    ensures
        instanciate_rule(source, at, behaviors, previous) matches Ok((found, end)) ==> made(
            source,
            found.location,
            from,
            at,
            end,
        ) && found.kind.tidy(found.location),
    decreases source.tokens, source.len() - at, 5int,
{
    reveal(instanciate_rule);
    reveal(expression_rule);
    if source.has(at) && source.has(at + 1) && previous is None {
        let token = source.tokens[at];
        lemma_token(source, at);
        lemma_expression(source, at + 1, at + 1, BehaviorSet { lazy: true, ..behaviors }, None);
        match expression_rule(source, at + 1, BehaviorSet { lazy: true, ..behaviors }, None) {
            Err(_) => {},
            Ok((found, end)) => {
                match found.kind {
                    ExpressionsView::ReturnOf(call) => {
                        let outer = token.location.join(found.location);
                        lemma_join(source, token.location, at, at + 1, found.location, at + 1, end);
                        assert(call.tidy(found.location));
                        assert forall|i: int| 0 <= i < call.arguments.len() implies outer.holds(
                            (#[trigger] call.arguments[i]).location,
                        ) && call.arguments[i].kind.tidy(call.arguments[i].location) by {
                            assert(found.location.holds(call.arguments[i].location));
                        }
                    },
                    _ => {},
                }
            },
        }
    }
}

/// A definition that is read of placed tokens is tidy, and lies where its tokens do.
pub proof fn lemma_definable(
    source: Source,
    from: int,
    at: int,
    behaviors: BehaviorSet,
    previous: Option<Instruction>,
)
    requires
        placed(source),
        ready(source, previous, from, at),
    ensures
        definable_rule(source, at, behaviors, previous) matches Ok((found, end)) ==> made(
            source,
            found.location,
            from,
            at,
            end,
        ) && found.kind.tidy(found.location),
    decreases source.tokens, source.len() - at, 8int,
{
    reveal(definable_rule);
    reveal(variable_rule);
    reveal(class_rule);
    reveal(function_rule);
    if source.has(at) {
        match source.tokens[at].kind {
            TokensView::VarDef(_) => {
                lemma_variable(source, from, at, behaviors, previous);
            },
            TokensView::Keyword(Keywords::Cs) => {
                lemma_class(source, from, at, previous);
            },
            TokensView::Keyword(Keywords::Fn) => {
                lemma_function(source, from, at, previous);
            },
            _ => {},
        }
    }
}

/// The definition of a variable that is read of placed tokens is tidy, and lies where its
/// tokens do.
pub proof fn lemma_variable(
    source: Source,
    from: int,
    at: int,
    behaviors: BehaviorSet,
    previous: Option<Instruction>,
)
    requires
        placed(source),
        ready(source, previous, from, at),
    ensures
        variable_rule(source, at, behaviors, previous) matches Ok((found, end)) ==> made(
            source,
            found.location,
            from,
            at,
            end,
        ) && found.kind.tidy(found.location),
    decreases source.tokens, source.len() - at, 5int,
{
    reveal(variable_rule);
    reveal(expression_rule);
    if source.has(at) && source.has(at + 1) {
        let token = source.tokens[at];
        match (token.kind, previous) {
            (TokensView::VarDef(mark), Some(emplacement)) => {
                match emplacement.kind {
                    InstructionsView::ValueOf(expression) => {
                        lemma_expression(source, at + 1, at + 1, behaviors.for_value(), None);
                        match expression_rule(source, at + 1, behaviors.for_value(), None) {
                            Err(_) => {},
                            Ok((written, end)) => {
                                let location = emplacement.location.join(written.location);
                                lemma_join(
                                    source,
                                    emplacement.location,
                                    from,
                                    at,
                                    written.location,
                                    at + 1,
                                    end,
                                );
                                lemma_token(source, at);
                                lemma_ordered(source, at - 1, at);
                                lemma_ordered(source, at, at + 1);
                                assert(location.holds(token.location));
                                assert(placed_token(
                                    source.module,
                                    token,
                                    0,
                                    source.module.code.len() as int,
                                ));
                                assert(expression.tidy(emplacement.location));
                                match emplacement_of(
                                    emplacement,
                                    expression,
                                    behaviors.any || behaviors.any_recursive,
                                ) {
                                    Ok(place) => {
                                        assert(place.tidy(emplacement.location));
                                    },
                                    Err(_) => {},
                                }
                                match mark {
                                    VarDefinitionView::WithOperation(operator) => {
                                        assert(token.location.holds(operator.location));
                                        assert(location.holds(operator.location));
                                        let operation = OperationView {
                                            operator,
                                            operands: (
                                                Box::new(node(expression, emplacement.location)),
                                                Box::new(written),
                                            ),
                                        };
                                        assert(operation.tidy(location));
                                        assert(OperationsView::Numeric(operation).tidy(location));
                                        assert(ExpressionsView::Operation(
                                            OperationsView::Numeric(operation),
                                        ).tidy(location));
                                    },
                                    _ => {},
                                }
                            },
                        }
                    },
                    _ => {},
                }
            },
            _ => {},
        }
    }
}

/// What a function executes is fine where the last branch of its scope is.
pub proof fn lemma_execution_of(source: Source, branch: Branch, from: int, to: int)
    requires
        fine_branch(source, branch, from, to),
    ensures
        fine_branch(source, execution_of(branch), from, to),
{
    if branch.len() == 1 {
        assert(fine(source, branch[0], from, to));
        match branch[0].kind {
            InstructionsView::ValueOf(expression) => {
                let returned = execution_of(branch)[0];
                let location = branch[0].location;
                let kind = BreakKindView::Return(None, Some(node(expression, location)));
                let breaker = BreakView { kind, keyword_location: location };
                assert(expression.tidy(location));
                assert(kind.tidy(location));
                assert(breaker.tidy(location));
                assert(returned == node(InstructionsView::Break(breaker), location));
                assert(returned.kind.tidy(location));
                assert forall|i: int| 0 <= i < execution_of(branch).len() implies fine(
                    source,
                    #[trigger] execution_of(branch)[i],
                    from,
                    to,
                ) by {
                    assert(execution_of(branch)[i] == returned);
                }
            },
            _ => {},
        }
    }
}

/// The definition of a function that is read of placed tokens is tidy, and lies where its
/// tokens do.
pub proof fn lemma_function(source: Source, from: int, at: int, previous: Option<Instruction>)
    requires
        placed(source),
        ready(source, previous, from, at),
    ensures
        function_rule(source, at, previous) matches Ok((found, end)) ==> made(
            source,
            found.location,
            from,
            at,
            end,
        ) && found.kind.tidy(found.location),
    decreases source.tokens, source.len() - at, 5int,
{
    reveal(function_rule);
    reveal(scope_rule);
    if source.has(at) && previous is None && source.has(at + 1) {
        let token = source.tokens[at];
        let named = source.tokens[at + 1].kind == TokensView::Literal(LiteralsView::Word);
        let opening = if named {
            at + 2
        } else {
            at + 1
        };
        if source.has(opening) {
            let opener = source.tokens[opening];
            lemma_scope(source, opening);
            match scope_rule(source, opening) {
                Err(_) => {},
                Ok(scope) => {
                    let closer = source.tokens[scope.close].location;
                    let outer = token.location.join(closer);
                    let failure = LangErrorView::UnableToParse(
                        opener.location.join(closer),
                        "One of the argument is not a valid expression"@,
                    );
                    lemma_token(source, at);
                    lemma_token(source, at + 1);
                    lemma_token(source, opening);
                    lemma_token(source, scope.close);
                    lemma_join(
                        source,
                        token.location,
                        at,
                        at + 1,
                        closer,
                        scope.close,
                        scope.close + 1,
                    );
                    lemma_holds(
                        source,
                        outer,
                        at,
                        scope.close + 1,
                        source.tokens[at + 1].location,
                        at + 1,
                        at + 2,
                    );
                    lemma_holds(
                        source,
                        outer,
                        at,
                        scope.close + 1,
                        opener.location,
                        opening,
                        opening + 1,
                    );
                    lemma_words_of(
                        source,
                        scope.branches,
                        0,
                        scope.branches.len() - 1,
                        Seq::empty(),
                        failure,
                        scope.open + 1,
                        scope.close,
                    );
                    assert(fine_branch(
                        source,
                        scope.branches.last(),
                        scope.open + 1,
                        scope.close,
                    ));
                    lemma_execution_of(
                        source,
                        scope.branches.last(),
                        scope.open + 1,
                        scope.close,
                    );
                    match words_of(
                        scope.branches,
                        0,
                        scope.branches.len() - 1,
                        Seq::empty(),
                        failure,
                    ) {
                        Err(_) => {},
                        Ok(arguments) => {
                            let execution = execution_of(scope.branches.last());
                            assert forall|i: int| 0 <= i < arguments.len() implies outer.holds(
                                (#[trigger] arguments[i]).location,
                            ) by {
                                lemma_holds(
                                    source,
                                    outer,
                                    at,
                                    scope.close + 1,
                                    arguments[i].location,
                                    scope.open + 1,
                                    scope.close,
                                );
                            }
                            assert forall|i: int| 0 <= i < execution.len() implies outer.holds(
                                (#[trigger] execution[i]).location,
                            ) && execution[i].kind.tidy(execution[i].location) by {
                                assert(fine(source, execution[i], scope.open + 1, scope.close));
                                lemma_holds(
                                    source,
                                    outer,
                                    at,
                                    scope.close + 1,
                                    execution[i].location,
                                    scope.open + 1,
                                    scope.close,
                                );
                            }
                        },
                    }
                },
            }
        }
    }
}

/// Whether the items of a class lie inside `outer`, and are tidy.
pub open spec fn fine_class(items: ClassItems, outer: SliceView) -> bool {
    &&& match items.constructor {
        Some(constructor) => outer.holds(constructor.location) && constructor.kind.tidy(
            constructor.location,
        ),
        None => true,
    }
    &&& forall|i: int| 0 <= i < items.parents.len() ==> outer.holds((#[trigger] items.parents[i]).location)
    &&& forall|i: int|
        0 <= i < items.attributes.len() ==> outer.holds((#[trigger] items.attributes[i]).location)
            && items.attributes[i].kind.tidy(items.attributes[i].location)
    &&& forall|i: int|
        0 <= i < items.methods.len() ==> outer.holds((#[trigger] items.methods[i]).location)
            && items.methods[i].kind.tidy(items.methods[i].location)
}

/// Whether every instruction of the branch lies inside `outer`, and is tidy.
pub open spec fn held_branch(branch: Branch, outer: SliceView) -> bool {
    forall|i: int|
        0 <= i < branch.len() ==> outer.holds((#[trigger] branch[i]).location)
            && branch[i].kind.tidy(branch[i].location)
}

/// Whether every instruction of every branch lies inside `outer`, and is tidy.
pub open spec fn held_branches(branches: Seq<Branch>, outer: SliceView) -> bool {
    forall|i: int| 0 <= i < branches.len() ==> held_branch(#[trigger] branches[i], outer)
}

/// Branches that are fine between two tokens are held by what begins with the first
/// token or before it and ends with the second or after it.
pub proof fn lemma_held(
    source: Source,
    branches: Seq<Branch>,
    open: int,
    close: int,
    outer: SliceView,
)
    requires
        placed(source),
        0 <= open < close < source.len(),
        fine_branches(source, branches, open + 1, close),
        outer.module == source.module,
        outer.start <= source.tokens[open].location.start,
        source.tokens[close].location.end <= outer.end,
    ensures
        held_branches(branches, outer),
{
    assert forall|i: int| 0 <= i < branches.len() implies held_branch(
        #[trigger] branches[i],
        outer,
    ) by {
        assert(fine_branch(source, branches[i], open + 1, close));
        assert forall|j: int| 0 <= j < branches[i].len() implies outer.holds(
            (#[trigger] branches[i][j]).location,
        ) && branches[i][j].kind.tidy(branches[i][j].location) by {
            assert(fine(source, branches[i][j], open + 1, close));
            lemma_holds(
                source,
                outer,
                open,
                close + 1,
                branches[i][j].location,
                open + 1,
                close,
            );
        }
    }
}

/// A function whose parts lie inside a slice has them inside any slice that holds it.
pub proof fn lemma_function_widen(function: DefineFunctionView, inner: SliceView, outer: SliceView)
    requires
        function.tidy(inner),
        outer.holds(inner),
    ensures
        function.tidy(outer),
{
}

/// Whether the modifiers lie inside `outer`, and are tidy.
pub open spec fn held_modifiers(modifiers: Seq<NodeView<ModifierView>>, outer: SliceView) -> bool {
    forall|i: int|
        0 <= i < modifiers.len() ==> outer.holds((#[trigger] modifiers[i]).location)
            && modifiers[i].kind.tidy(modifiers[i].location)
}

/// What an instruction that is tidy defines lies inside the instruction, with the
/// modifiers that stand before it.
pub proof fn lemma_class_item(instruction: Instruction)
    requires
        instruction.kind.tidy(instruction.location),
        instruction.location.start <= instruction.location.end,
    ensures
        class_item(instruction) matches Some((defined, modifiers)) ==> defined.tidy(
            instruction.location,
        ) && held_modifiers(modifiers, instruction.location),
{
    match instruction.kind {
        InstructionsView::ValueOf(ExpressionsView::Defined(defined)) => {
            assert(ExpressionsView::Defined(defined).tidy(instruction.location));
        },
        InstructionsView::ValueOf(ExpressionsView::Modified(modified)) => {
            assert(ExpressionsView::Modified(modified).tidy(instruction.location));
            assert(modified.tidy(instruction.location));
            let inner = modified.definable.location;
            match modified.definable.kind {
                DefinablesView::Function(function) => {
                    assert(function.tidy(inner));
                    lemma_function_widen(function, inner, instruction.location);
                },
                DefinablesView::Variable(variable) => {
                    assert(variable.tidy(inner));
                    assert(variable.tidy(instruction.location));
                },
                DefinablesView::Class(class) => {
                    assert(class.tidy(inner));
                    assert(class.tidy(instruction.location));
                },
            }
        },
        _ => {},
    }
}

/// The items of the body of a class, which `outer` holds, lie inside `outer`, and are tidy.
pub proof fn lemma_class_body(branch: Branch, from: int, items: ClassItems, outer: SliceView)
    requires
        held_branch(branch, outer),
        fine_class(items, outer),
    ensures
        class_body(branch, from, items) matches Ok(filled) ==> fine_class(filled, outer)
            && filled.body_processed == items.body_processed,
    decreases branch.len() - from,
{
    if 0 <= from < branch.len() {
        let instruction = branch[from];
        assert(outer.holds(instruction.location) && instruction.kind.tidy(instruction.location));
        lemma_class_item(instruction);
        match class_item(instruction) {
            Some((DefinablesView::Function(method), modified_by)) => {
                match method.name {
                    None => {},
                    Some(name) => {
                        let one = node(
                            ClassMethodView {
                                name,
                                arguments: method.arguments,
                                scope_target: method.scope_target,
                                execution: method.execution,
                                visibility: ClassItemVisibility::Public,
                                is_static: false,
                                modified_by,
                            },
                            instruction.location,
                        );
                        let next = ClassItems { methods: items.methods.push(one), ..items };
                        assert(DefinablesView::Function(method).tidy(instruction.location));
                        assert(method.tidy(instruction.location));
                        assert(one.kind.tidy(one.location));
                        assert forall|i: int| 0 <= i < next.methods.len() implies outer.holds(
                            (#[trigger] next.methods[i]).location,
                        ) && next.methods[i].kind.tidy(next.methods[i].location) by {
                            if i < items.methods.len() {
                                assert(next.methods[i] == items.methods[i]);
                            }
                        }
                        lemma_class_body(branch, from + 1, next, outer);
                    },
                }
            },
            Some((DefinablesView::Variable(attribute), modified_by)) => {
                if attribute.emplacement.kind is Scope {
                    let one = node(
                        ClassAttributeView {
                            name: node(Word, attribute.emplacement.location),
                            value: attribute.value,
                            visibility: ClassItemVisibility::Public,
                            is_static: false,
                            modified_by,
                        },
                        instruction.location,
                    );
                    let next = ClassItems { attributes: items.attributes.push(one), ..items };
                    assert(DefinablesView::Variable(attribute).tidy(instruction.location));
                    assert(attribute.tidy(instruction.location));
                    assert(one.kind.tidy(one.location));
                    assert forall|i: int| 0 <= i < next.attributes.len() implies outer.holds(
                        (#[trigger] next.attributes[i]).location,
                    ) && next.attributes[i].kind.tidy(next.attributes[i].location) by {
                        if i < items.attributes.len() {
                            assert(next.attributes[i] == items.attributes[i]);
                        }
                    }
                    lemma_class_body(branch, from + 1, next, outer);
                }
            },
            _ => {},
        }
    }
}

/// The items of a class, whose branches `outer` holds, lie inside `outer`, and are tidy.
pub proof fn lemma_class_items(
    branches: Seq<Branch>,
    from: int,
    items: ClassItems,
    location: SliceView,
    outer: SliceView,
)
    requires
        held_branches(branches, outer),
        fine_class(items, outer),
    ensures
        class_items(branches, from, items, location) matches Ok(filled) ==> fine_class(
            filled,
            outer,
        ),
    decreases branches.len() - from,
{
    if 0 <= from < branches.len() {
        let branch = branches[from];
        assert(held_branch(branch, outer));
        match class_branch(branch, items) {
            ClassBranch::Constructor(function) => {
                assert(outer.holds(branch[0].location) && branch[0].kind.tidy(branch[0].location));
                let defined = DefinablesView::Function(function);
                assert(ExpressionsView::Defined(defined).tidy(branch[0].location));
                assert(defined.tidy(branch[0].location));
                assert(function.tidy(branch[0].location));
                lemma_class_items(
                    branches,
                    from + 1,
                    ClassItems {
                        constructor: Some(node(function, branch[0].location)),
                        ..items
                    },
                    location,
                    outer,
                );
            },
            ClassBranch::Parent => {
                if !(items.constructor is Some || items.body_processed) {
                    let one = node(Word, branch[0].location);
                    let next = ClassItems { parents: items.parents.push(one), ..items };
                    assert(outer.holds(branch[0].location));
                    assert forall|i: int| 0 <= i < next.parents.len() implies outer.holds(
                        (#[trigger] next.parents[i]).location,
                    ) by {
                        if i < items.parents.len() {
                            assert(next.parents[i] == items.parents[i]);
                        }
                    }
                    lemma_class_items(branches, from + 1, next, location, outer);
                }
            },
            ClassBranch::Body => {
                if !items.body_processed {
                    lemma_class_body(branch, 0, items, outer);
                    match class_body(branch, 0, items) {
                        Err(_) => {},
                        Ok(filled) => {
                            lemma_class_items(
                                branches,
                                from + 1,
                                ClassItems { body_processed: true, ..filled },
                                location,
                                outer,
                            );
                        },
                    }
                }
            },
        }
    }
}

/// The definition of a class that is read of placed tokens is tidy, and lies where its
/// tokens do.
pub proof fn lemma_class(source: Source, from: int, at: int, previous: Option<Instruction>)
    requires
        placed(source),
        ready(source, previous, from, at),
    ensures
        class_rule(source, at, previous) matches Ok((found, end)) ==> made(
            source,
            found.location,
            from,
            at,
            end,
        ) && found.kind.tidy(found.location),
    decreases source.tokens, source.len() - at, 5int,
{
    reveal(class_rule);
    reveal(enclosed);
    if source.has(at) && previous is None && source.has(at + 1) && source.has(at + 2) {
        let keyword = source.tokens[at];
        lemma_enclosed(
            source,
            at + 3,
            Stopper::Block,
            Splitter::ArgSeparator,
            BehaviorSet::none(),
        );
        match enclosed(source, at + 3, Stopper::Block, Splitter::ArgSeparator, BehaviorSet::none()) {
            Err(_) => {},
            Ok((branches, close)) => {
                let location = keyword.location.join(source.tokens[close].location);
                lemma_token(source, at);
                lemma_token(source, at + 1);
                lemma_token(source, close);
                lemma_join(
                    source,
                    keyword.location,
                    at,
                    at + 1,
                    source.tokens[close].location,
                    close,
                    close + 1,
                );
                lemma_holds(
                    source,
                    location,
                    at,
                    close + 1,
                    source.tokens[at + 1].location,
                    at + 1,
                    at + 2,
                );
                lemma_ordered(source, at, at + 2);
                if close > at + 2 {
                    lemma_fine_branches_widen(source, branches, at + 3, close, at + 3, close);
                }
                let nothing = ClassItems {
                    constructor: None,
                    parents: Seq::empty(),
                    attributes: Seq::empty(),
                    methods: Seq::empty(),
                    body_processed: false,
                };
                lemma_held(source, branches, at + 2, close, location);
                lemma_class_items(branches, 0, nothing, location, location);
            },
        }
    }
}

/// The entry that the definition of a variable makes lies where the definition does, and
/// is tidy.
pub proof fn lemma_entry_of(variable: DefineVariableView, outer: SliceView)
    requires
        variable.tidy(outer),
    ensures
        entry_of(variable) matches Ok(entry) ==> entry.tidy(outer),
{
}

/// The items of an object, whose branches `outer` holds, lie inside `outer`, and are tidy.
pub proof fn lemma_object_items(
    branches: Seq<Branch>,
    from: int,
    found: PrimaryObjectView,
    location: SliceView,
    outer: SliceView,
)
    requires
        held_branches(branches, outer),
        found.tidy(outer),
    ensures
        object_items(branches, from, found, location) matches Ok(filled) ==> filled.tidy(outer),
    decreases branches.len() - from,
{
    if 0 <= from < branches.len() && branches[from].len() == 1 {
        assert(held_branch(branches[from], outer));
        let instruction = branches[from][0];
        assert(outer.holds(instruction.location) && instruction.kind.tidy(instruction.location));
        match instruction.kind {
            InstructionsView::ValueOf(
                ExpressionsView::Defined(DefinablesView::Variable(variable)),
            ) if !(variable.emplacement.kind is Property) => {
                match found {
                    PrimaryObjectView::Struct(structure) => {
                        if from == 0 || structure.entries.len() > 0 {
                            let defined = DefinablesView::Variable(variable);
                            assert(ExpressionsView::Defined(defined).tidy(instruction.location));
                            assert(defined.tidy(instruction.location));
                            lemma_entry_of(variable, instruction.location);
                            match entry_of(variable) {
                                Err(_) => {},
                                Ok(entry) => {
                                    let one = node(entry, instruction.location);
                                    let entries = structure.entries.push(one);
                                    assert forall|i: int|
                                        0 <= i < entries.len() implies outer.holds(
                                        (#[trigger] entries[i]).location,
                                    ) && entries[i].kind.tidy(entries[i].location) by {
                                        if i < structure.entries.len() {
                                            assert(entries[i] == structure.entries[i]);
                                        }
                                    }
                                    lemma_object_items(
                                        branches,
                                        from + 1,
                                        PrimaryObjectView::Struct(StructureView { entries }),
                                        location,
                                        outer,
                                    );
                                },
                            }
                        }
                    },
                    _ => {},
                }
            },
            InstructionsView::ValueOf(expression) => {
                let one = node(expression, instruction.location);
                match found {
                    PrimaryObjectView::Struct(structure) => {
                        if from == 0 {
                            lemma_object_items(
                                branches,
                                from + 1,
                                PrimaryObjectView::Arr(ArrayView { entries: seq![one] }),
                                location,
                                outer,
                            );
                        }
                    },
                    PrimaryObjectView::Arr(array) => {
                        let entries = array.entries.push(one);
                        assert forall|i: int| 0 <= i < entries.len() implies outer.holds(
                            (#[trigger] entries[i]).location,
                        ) && entries[i].kind.tidy(entries[i].location) by {
                            if i < array.entries.len() {
                                assert(entries[i] == array.entries[i]);
                            }
                        }
                        lemma_object_items(
                            branches,
                            from + 1,
                            PrimaryObjectView::Arr(ArrayView { entries }),
                            location,
                            outer,
                        );
                    },
                }
            },
            _ => {},
        }
    }
}

/// An object that is read of placed tokens is tidy, and lies where its tokens do.
pub proof fn lemma_object(source: Source, from: int, at: int, previous: Option<Instruction>)
    requires
        placed(source),
        ready(source, previous, from, at),
    ensures
        object_rule(source, at, previous) matches Ok((found, end)) ==> made(
            source,
            found.location,
            from,
            at,
            end,
        ) && found.kind.tidy(found.location),
    decreases source.tokens, source.len() - at, 5int,
{
    reveal(object_rule);
    reveal(enclosed);
    if source.has(at) && previous is None {
        let token = source.tokens[at];
        lemma_token(source, at);
        if source.has(at + 2) && source.tokens[at + 1].kind == TokensView::VarDef(
            VarDefinitionView::Normal,
        ) && source.tokens[at + 2].kind == TokensView::Object(Toggleable::Closing) {
            lemma_token(source, at + 2);
            lemma_join(
                source,
                token.location,
                at,
                at + 1,
                source.tokens[at + 2].location,
                at + 2,
                at + 3,
            );
        } else {
            let persistent = BehaviorSet { any: true, ..BehaviorSet::none() };
            lemma_enclosed(source, at + 1, Stopper::Object, Splitter::ArgSeparator, persistent);
            match enclosed(source, at + 1, Stopper::Object, Splitter::ArgSeparator, persistent) {
                Err(_) => {},
                Ok((branches, close)) => {
                    let location = token.location.join(source.tokens[close].location);
                    lemma_token(source, close);
                    lemma_join(
                        source,
                        token.location,
                        at,
                        at + 1,
                        source.tokens[close].location,
                        close,
                        close + 1,
                    );
                    lemma_held(source, branches, at, close, location);
                    lemma_object_items(
                        branches,
                        0,
                        PrimaryObjectView::Struct(StructureView { entries: Seq::empty() }),
                        location,
                        location,
                    );
                },
            }
        }
    }
}

/// The modifiers that branches hold, which `outer` holds, lie inside `outer`, and are tidy.
pub proof fn lemma_modifiers_of(
    branches: Seq<Branch>,
    from: int,
    found: Seq<NodeView<ModifierView>>,
    marker: SliceView,
    outer: SliceView,
)
    requires
        held_branches(branches, outer),
        forall|i: int|
            0 <= i < found.len() ==> outer.holds((#[trigger] found[i]).location)
                && found[i].kind.tidy(found[i].location),
    ensures
        modifiers_of(branches, from, found, marker) matches Ok(modifiers) ==> forall|i: int|
            0 <= i < modifiers.len() ==> outer.holds((#[trigger] modifiers[i]).location)
                && modifiers[i].kind.tidy(modifiers[i].location),
    decreases branches.len() - from,
{
    if 0 <= from < branches.len() && branches[from].len() == 1 {
        let branch = branches[from];
        assert(held_branch(branch, outer));
        assert(outer.holds(branch[0].location) && branch[0].kind.tidy(branch[0].location));
        match branch[0].kind {
            InstructionsView::ValueOf(ExpressionsView::Literal(ParsedLiteralsView::Word)) => {
                let one = node(ModifierView::DefinedElement, branch[0].location);
                assert forall|i: int| 0 <= i < found.push(one).len() implies outer.holds(
                    (#[trigger] found.push(one)[i]).location,
                ) && found.push(one)[i].kind.tidy(found.push(one)[i].location) by {
                    if i < found.len() {
                        assert(found.push(one)[i] == found[i]);
                    }
                }
                lemma_modifiers_of(branches, from + 1, found.push(one), marker, outer);
            },
            InstructionsView::ValueOf(ExpressionsView::ReturnOf(call)) => {
                let one = node(ModifierView::CallReturn(call), branch[0].location);
                assert forall|i: int| 0 <= i < found.push(one).len() implies outer.holds(
                    (#[trigger] found.push(one)[i]).location,
                ) && found.push(one)[i].kind.tidy(found.push(one)[i].location) by {
                    if i < found.len() {
                        assert(found.push(one)[i] == found[i]);
                    }
                }
                lemma_modifiers_of(branches, from + 1, found.push(one), marker, outer);
            },
            _ => {},
        }
    }
}

/// The branches of a list of modifiers that is read of placed tokens are fine, and the
/// token that closes the list stands there.
pub proof fn lemma_modifiers_list(source: Source, at: int)
    requires
        placed(source),
        0 <= at <= source.len(),
    ensures
        modifiers_list(source, at) matches Ok((branches, close)) ==> at < close < source.len()
            && fine_branches(source, branches, at + 1, close),
    decreases source.tokens, source.len() - at, 33int,
{
    reveal(scope_rule);
    reveal(enclosed);
    if source.has(at) && source.tokens[at].kind == TokensView::Object(Toggleable::Openning) {
        lemma_enclosed(source, at + 1, Stopper::Object, Splitter::ArgSeparator, BehaviorSet::none());
    } else {
        lemma_scope(source, at);
    }
}

/// A definition with its modifiers that is read of placed tokens is tidy, and lies where
/// its tokens do.
pub proof fn lemma_modified(
    source: Source,
    from: int,
    at: int,
    behaviors: BehaviorSet,
    previous: Option<Instruction>,
)
    requires
        placed(source),
        ready(source, previous, from, at),
    ensures
        modified_rule(source, at, behaviors, previous) matches Ok((found, end)) ==> made(
            source,
            found.location,
            from,
            at,
            end,
        ) && found.kind.tidy(found.location),
    decreases source.tokens, source.len() - at, 5int,
{
    reveal(modified_rule);
    reveal(expression_rule);
    if source.has(at) && previous is None {
        let token = source.tokens[at];
        lemma_token(source, at);
        lemma_modifiers_list(source, at + 1);
        match modifiers_list(source, at + 1) {
            Err(_) => {},
            Ok((branches, close)) => {
                if source.has(close + 1) {
                    lemma_expression(source, close + 1, close + 1, behaviors, None);
                    match expression_rule(source, close + 1, behaviors, None) {
                        Err(_) => {},
                        Ok((found, end)) => {
                            let outer = token.location.join(found.location);
                            lemma_join(
                                source,
                                token.location,
                                at,
                                at + 1,
                                found.location,
                                close + 1,
                                end,
                            );
                            lemma_ordered(source, close, close + 1);
                            lemma_ordered(source, at, at + 1);
                            lemma_held(source, branches, at + 1, close, outer);
                            lemma_modifiers_of(branches, 0, Seq::empty(), token.location, outer);
                        },
                    }
                }
            },
        }
    }
}

/// An `if` that is read of placed tokens is tidy, and lies where its tokens do.
pub proof fn lemma_if(
    source: Source,
    from: int,
    at: int,
    behaviors: BehaviorSet,
    previous: Option<Instruction>,
)
    requires
        placed(source),
        ready(source, previous, from, at),
    ensures
        if_rule(source, at, behaviors, previous) matches Ok((found, end)) ==> made(
            source,
            found.location,
            from,
            at,
            end,
        ) && found.kind.tidy(found.location),
    decreases source.tokens, source.len() - at, 6int,
{
    reveal(if_rule);
    reveal(scope_rule);
    reveal(fallback_rule);
    if source.has(at) && previous is None && source.has(at + 1) {
        let token = source.tokens[at];
        let opener = source.tokens[at + 1];
        lemma_token(source, at);
        lemma_scope(source, at + 1);
        match scope_rule(source, at + 1) {
            Err(_) => {},
            Ok(scope) => {
                let closer = source.tokens[scope.close].location;
                let arguments = opener.location.join(closer);
                let branches = scope.branches;
                lemma_token(source, scope.close);
                lemma_token(source, at + 1);
                lemma_ordered(source, at, scope.open);
                if branches.len() == 2 || branches.len() == 3 {
                    let failure = LangErrorView::UnableToParse(
                        arguments,
                        "Unable to validate the condition. Expected 1 expression"@,
                    );
                    assert(fine_branch(source, branches[0], scope.open + 1, scope.close));
                    assert(fine_branch(source, branches[1], scope.open + 1, scope.close));
                    lemma_expression_of(
                        source,
                        branches[0],
                        failure,
                        scope.open + 1,
                        scope.close,
                    );
                    match expression_of(branches[0], failure) {
                        Err(_) => {},
                        Ok(condition) => {
                            if branches.len() == 3 {
                                let outer = token.location.join(closer);
                                lemma_join(
                                    source,
                                    token.location,
                                    at,
                                    at + 1,
                                    closer,
                                    scope.close,
                                    scope.close + 1,
                                );
                                let failed = LangErrorView::UnableToParse(
                                    source.tokens[at + 1].location.join(closer),
                                    "Unable to parse ternary items : expected 1 expression per argument"@,
                                );
                                assert(fine_branch(
                                    source,
                                    branches[2],
                                    scope.open + 1,
                                    scope.close,
                                ));
                                lemma_expression_of(
                                    source,
                                    branches[1],
                                    failed,
                                    scope.open + 1,
                                    scope.close,
                                );
                                lemma_expression_of(
                                    source,
                                    branches[2],
                                    failed,
                                    scope.open + 1,
                                    scope.close,
                                );
                                lemma_holds(
                                    source,
                                    outer,
                                    at,
                                    scope.close + 1,
                                    condition.location,
                                    scope.open + 1,
                                    scope.close,
                                );
                                match expression_of(branches[1], failed) {
                                    Ok(yes) => {
                                        lemma_holds(
                                            source,
                                            outer,
                                            at,
                                            scope.close + 1,
                                            yes.location,
                                            scope.open + 1,
                                            scope.close,
                                        );
                                    },
                                    Err(_) => {},
                                }
                                match expression_of(branches[2], failed) {
                                    Ok(no) => {
                                        lemma_holds(
                                            source,
                                            outer,
                                            at,
                                            scope.close + 1,
                                            no.location,
                                            scope.open + 1,
                                            scope.close,
                                        );
                                    },
                                    Err(_) => {},
                                }
                            } else if source.forward(at, scope.close + 1) {
                                if source.has(scope.close + 1) && source.tokens[scope.close
                                    + 1].kind == TokensView::Keyword(Keywords::Else) {
                                    lemma_fallback(source, scope.close + 1, behaviors);
                                    match fallback_rule(source, scope.close + 1, behaviors) {
                                        Err(_) => {},
                                        Ok((fallback, end)) => {
                                            let outer = token.location.join(fallback.location);
                                            lemma_join(
                                                source,
                                                token.location,
                                                at,
                                                at + 1,
                                                fallback.location,
                                                scope.close + 1,
                                                end,
                                            );
                                            lemma_ordered(source, scope.close, scope.close + 1);
                                            lemma_if_parts(
                                                source,
                                                at,
                                                scope,
                                                condition,
                                                outer,
                                            );
                                        },
                                    }
                                } else {
                                    let outer = token.location.join(closer);
                                    lemma_join(
                                        source,
                                        token.location,
                                        at,
                                        at + 1,
                                        closer,
                                        scope.close,
                                        scope.close + 1,
                                    );
                                    lemma_if_parts(source, at, scope, condition, outer);
                                }
                            }
                        },
                    }
                }
            },
        }
    }
}

/// The condition, the process and the target of an `if` lie inside what begins with the
/// `if` and ends with the `)` of its scope or after it.
pub proof fn lemma_if_parts(
    source: Source,
    at: int,
    scope: ScopeFound,
    condition: Expression,
    outer: SliceView,
)
    requires
        placed(source),
        0 <= at < scope.open < scope.close < source.len(),
        scope.open <= at + 2,
        scope.branches.len() == 2,
        fine_branches(source, scope.branches, scope.open + 1, scope.close),
        fine_expression(source, condition, scope.open + 1, scope.close),
        match scope.target {
            Some(target) => scope.open == at + 2 && target.location == source.tokens[at
                + 1].location,
            None => scope.open == at + 1,
        },
        outer.module == source.module,
        outer.start <= source.tokens[at].location.start,
        source.tokens[scope.close].location.end <= outer.end,
    ensures
        outer.holds(condition.location),
        forall|i: int|
            0 <= i < scope.branches[1].len() ==> outer.holds(
                (#[trigger] scope.branches[1][i]).location,
            ) && scope.branches[1][i].kind.tidy(scope.branches[1][i].location),
        match scope.target {
            Some(target) => outer.holds(target.location),
            None => true,
        },
{
    lemma_holds(
        source,
        outer,
        at,
        scope.close + 1,
        condition.location,
        scope.open + 1,
        scope.close,
    );
    lemma_ordered(source, at, scope.open);
    lemma_held(source, scope.branches, scope.open, scope.close, outer);
    assert(held_branch(scope.branches[1], outer));
    lemma_token(source, at + 1);
    lemma_holds(
        source,
        outer,
        at,
        scope.close + 1,
        source.tokens[at + 1].location,
        at + 1,
        at + 2,
    );
}

/// What `else` opens, read of placed tokens, is tidy, and lies where its tokens do.
pub proof fn lemma_fallback(source: Source, at: int, behaviors: BehaviorSet)
    requires
        placed(source),
    ensures
        fallback_rule(source, at, behaviors) matches Ok((found, end)) ==> made(
            source,
            found.location,
            at,
            at,
            end,
        ) && found.kind.tidy(found.location),
    decreases source.tokens, source.len() - at, 7int,
{
    reveal(fallback_rule);
    reveal(if_rule);
    reveal(enclosed);
    if source.has(at) && source.has(at + 1) {
        let token = source.tokens[at];
        lemma_token(source, at);
        match source.tokens[at + 1].kind {
            TokensView::Keyword(Keywords::If) => {
                lemma_if(source, at + 1, at + 1, behaviors, None);
                match if_rule(source, at + 1, behaviors, None) {
                    Err(_) => {},
                    Ok((found, end)) => {
                        lemma_join(source, token.location, at, at + 1, found.location, at + 1, end);
                    },
                }
            },
            TokensView::Block(Toggleable::Openning) => {
                lemma_enclosed(
                    source,
                    at + 2,
                    Stopper::Block,
                    Splitter::Nothing,
                    BehaviorSet::none(),
                );
                match enclosed(source, at + 2, Stopper::Block, Splitter::Nothing, BehaviorSet::none()) {
                    Err(_) => {},
                    Ok((branches, close)) => {
                        let outer = token.location.join(source.tokens[close].location);
                        lemma_token(source, close);
                        lemma_join(
                            source,
                            token.location,
                            at,
                            at + 1,
                            source.tokens[close].location,
                            close,
                            close + 1,
                        );
                        lemma_ordered(source, at, at + 1);
                        lemma_held(source, branches, at + 1, close, outer);
                        assert(held_branch(branches[0], outer));
                    },
                }
            },
            _ => {},
        }
    }
}

/// The name that a branch of a loop gives lies where the branches do.
pub proof fn lemma_loop_name(
    source: Source,
    branches: Seq<Branch>,
    at: int,
    failure: LangErrorView,
    from: int,
    to: int,
)
    requires
        fine_branches(source, branches, from, to),
    ensures
        loop_name(branches, at, failure) matches Ok(Some(name)) ==> within(
            source,
            name.location,
            from,
            to,
        ),
{
    if 1 <= at < branches.len() - 1 {
        assert(fine_branch(source, branches[at], from, to));
        lemma_word_of(source, branches[at], failure, from, to);
    }
}

/// A loop that is read of placed tokens is tidy, and lies where its tokens do.
pub proof fn lemma_loop(source: Source, from: int, at: int, previous: Option<Instruction>)
    requires
        placed(source),
        ready(source, previous, from, at),
    ensures
        loop_rule(source, at, previous) matches Ok((found, end)) ==> made(
            source,
            found.location,
            from,
            at,
            end,
        ) && found.kind.tidy(found.location),
    decreases source.tokens, source.len() - at, 5int,
{
    reveal(loop_rule);
    reveal(scope_rule);
    if source.has(at) && previous is None {
        let token = source.tokens[at];
        lemma_token(source, at);
        lemma_scope(source, at + 1);
        match scope_rule(source, at + 1) {
            Err(_) => {},
            Ok(scope) => {
                let closer = source.tokens[scope.close].location;
                let inside = source.tokens[scope.open].location.join(closer);
                let branches = scope.branches;
                let each = token.kind == TokensView::Keyword(Keywords::Each);
                let outer = token.location.join(closer);
                let invalid = LangErrorView::UnableToParse(inside, "Invalid arguments given."@);
                let missing = LangErrorView::UnableToParse(
                    inside,
                    if each {
                        "Missing the iteratable"@
                    } else {
                        "Missing the condition"@
                    },
                );
                lemma_token(source, scope.close);
                lemma_token(source, at + 1);
                lemma_join(
                    source,
                    token.location,
                    at,
                    at + 1,
                    closer,
                    scope.close,
                    scope.close + 1,
                );
                lemma_ordered(source, at, scope.open);
                lemma_holds(
                    source,
                    outer,
                    at,
                    scope.close + 1,
                    source.tokens[at + 1].location,
                    at + 1,
                    at + 2,
                );
                assert(fine_branch(source, branches[0], scope.open + 1, scope.close));
                lemma_expression_of(source, branches[0], missing, scope.open + 1, scope.close);
                lemma_loop_name(source, branches, 1, invalid, scope.open + 1, scope.close);
                lemma_loop_name(source, branches, 2, invalid, scope.open + 1, scope.close);
                lemma_held(source, branches, scope.open, scope.close, outer);
                assert(held_branch(branches.last(), outer));
                match expression_of(branches[0], missing) {
                    Err(_) => {},
                    Ok(driver) => {
                        lemma_holds(
                            source,
                            outer,
                            at,
                            scope.close + 1,
                            driver.location,
                            scope.open + 1,
                            scope.close,
                        );
                        match loop_name(branches, 1, invalid) {
                            Ok(Some(name)) => {
                                lemma_holds(
                                    source,
                                    outer,
                                    at,
                                    scope.close + 1,
                                    name.location,
                                    scope.open + 1,
                                    scope.close,
                                );
                            },
                            _ => {},
                        }
                        match loop_name(branches, 2, invalid) {
                            Ok(Some(name)) => {
                                lemma_holds(
                                    source,
                                    outer,
                                    at,
                                    scope.close + 1,
                                    name.location,
                                    scope.open + 1,
                                    scope.close,
                                );
                            },
                            _ => {},
                        }
                        match (loop_name(branches, 1, invalid), loop_name(branches, 2, invalid)) {
                            (Ok(first), Ok(second)) => {
                                let through = EachView {
                                    iterable: Box::new(driver),
                                    item: first,
                                    index: second,
                                };
                                let reverse = ReverseView {
                                    kind: ReverseKind::Boolean,
                                    expression: Box::new(driver),
                                };
                                let turned = node(ExpressionsView::Reverse(reverse), driver.location);
                                let until = WhileView {
                                    condition: Box::new(turned),
                                    iteration_number: first,
                                };
                                let conditionnaly = WhileView {
                                    condition: Box::new(driver),
                                    iteration_number: first,
                                };
                                assert(reverse.tidy(driver.location));
                                assert(turned.kind.tidy(turned.location));
                                if each {
                                    assert(through.tidy(outer));
                                    assert(LoopParameterView::Through(through).tidy(outer));
                                } else {
                                    assert(until.tidy(outer));
                                    assert(conditionnaly.tidy(outer));
                                    assert(LoopParameterView::Conditionnaly(until).tidy(outer));
                                    assert(LoopParameterView::Conditionnaly(conditionnaly).tidy(
                                        outer,
                                    ));
                                }
                            },
                            _ => {},
                        }
                    },
                }
            },
        }
    }
}

/// A breaker that is read of placed tokens is tidy, and lies where its tokens do.
pub proof fn lemma_break(
    source: Source,
    from: int,
    at: int,
    behaviors: BehaviorSet,
    previous: Option<Instruction>,
)
    requires
        placed(source),
        ready(source, previous, from, at),
    ensures
        break_rule(source, at, behaviors, previous) matches Ok((found, end)) ==> made(
            source,
            found.location,
            from,
            at,
            end,
        ) && found.kind.tidy(found.location),
    decreases source.tokens, source.len() - at, 5int,
{
    reveal(break_rule);
    reveal(expression_rule);
    if source.has(at) && previous is None {
        let token = source.tokens[at];
        lemma_token(source, at);
        let targeted = source.has(at + 1) && source.tokens[at + 1].kind is ScopeTarget;
        let next = if targeted {
            at + 2
        } else {
            at + 1
        };
        let ahead = if targeted {
            token.location.join(source.tokens[at + 1].location)
        } else {
            token.location
        };
        if targeted {
            lemma_token(source, at + 1);
            lemma_join(
                source,
                token.location,
                at,
                at + 1,
                source.tokens[at + 1].location,
                at + 1,
                at + 2,
            );
        }
        if token.kind == TokensView::Keyword(Keywords::Return) && source.has(next) {
            lemma_expression(source, next, next, behaviors, None);
            match expression_rule(source, next, behaviors, None) {
                Err(_) => {},
                Ok((value, end)) => {
                    lemma_join(source, ahead, at, next, value.location, next, end);
                },
            }
        }
    }
}

/// What a `use` takes, read of placed tokens, lies where its tokens do.
pub proof fn lemma_use_getters(source: Source, at: int)
    requires
        placed(source),
        0 <= at <= source.len(),
    ensures
        use_getters(source, at) matches Ok((found, end)) ==> at <= end <= source.len() && (end
            == at || at + 2 < end) && match found {
            PackageIncludedContentView::Only(names) => at + 2 < end && fine_words(
                source,
                names,
                at + 1,
                end - 2,
            ),
            PackageIncludedContentView::All => true,
        },
    decreases source.tokens, source.len() - at, 4int,
{
    reveal(use_getters);
    reveal(enclosed);
    if source.has(at) {
        let stopper = if source.tokens[at].kind is Object {
            Stopper::Object
        } else {
            Stopper::Block
        };
        lemma_enclosed(source, at + 1, stopper, Splitter::ArgSeparator, BehaviorSet::none());
        match enclosed(source, at + 1, stopper, Splitter::ArgSeparator, BehaviorSet::none()) {
            Err(_) => {},
            Ok((branches, close)) => {
                let failure = LangErrorView::UnableToParse(
                    source.tokens[close].location,
                    "Invalid syntax inside the block"@,
                );
                lemma_words_of(
                    source,
                    branches,
                    0,
                    branches.len() as int,
                    Seq::empty(),
                    failure,
                    at + 1,
                    close,
                );
            },
        }
    }
}

/// An importation that is read of placed tokens is tidy, and lies where its tokens do.
pub proof fn lemma_use(source: Source, from: int, at: int, previous: Option<Instruction>)
    requires
        placed(source),
        ready(source, previous, from, at),
    ensures
        use_rule(source, at, previous) matches Ok((found, end)) ==> made(
            source,
            found.location,
            from,
            at,
            end,
        ) && found.kind.tidy(found.location),
    decreases source.tokens, source.len() - at, 5int,
{
    reveal(use_rule);
    reveal(use_getters);
    if source.has(at) && previous is None && source.has(at + 1) {
        let token = source.tokens[at];
        lemma_token(source, at);
        lemma_use_getters(source, at + 1);
        match use_getters(source, at + 1) {
            Err(_) => {},
            Ok((included, first)) => {
                match use_source(source, first) {
                    Err(_) => {},
                    Ok(origin) => {
                        match use_emplacement(source, first + 1) {
                            Err(_) => {},
                            Ok((emplacement, end)) => {
                                let outer = token.location.join(source.tokens[end - 1].location);
                                lemma_token(source, end - 1);
                                lemma_join(
                                    source,
                                    token.location,
                                    at,
                                    at + 1,
                                    source.tokens[end - 1].location,
                                    end - 1,
                                    end,
                                );
                                match included {
                                    PackageIncludedContentView::Only(names) => {
                                        assert forall|i: int|
                                            0 <= i < names.len() implies outer.holds(
                                            (#[trigger] names[i]).location,
                                        ) by {
                                            lemma_holds(
                                                source,
                                                outer,
                                                at,
                                                end,
                                                names[i].location,
                                                at + 2,
                                                first - 2,
                                            );
                                        }
                                    },
                                    _ => {},
                                }
                            },
                        }
                    },
                }
            },
        }
    }
}

/// The tree of a source whose tokens are placed is tidy: every node is a slice of the
/// module that holds the slice of each node below it, and the sign of a number is never
/// turned over.
pub proof fn lemma_placed_tokens_make_tidy_trees(source: Source)
    requires
        placed(source),
    ensures
        program(source) matches Ok(instructions) ==> forall|i: int|
            0 <= i < instructions.len() ==> (#[trigger] instructions[i]).location.module
                == source.module && 0 <= instructions[i].location.start
                <= instructions[i].location.end <= source.module.code.len()
                && instructions[i].kind.tidy(instructions[i].location),
{
    lemma_program(source);
    match program(source) {
        Ok(instructions) => {
            assert forall|i: int| 0 <= i < instructions.len() implies (
            #[trigger] instructions[i]).location.module == source.module && 0
                <= instructions[i].location.start <= instructions[i].location.end
                <= source.module.code.len() && instructions[i].kind.tidy(
                instructions[i].location,
            ) by {
                assert(fine(source, instructions[i], 0, source.len()));
                lemma_ordered(source, source.len() - 1, source.len() - 1);
                lemma_ordered(source, 0, 0);
            }
        },
        Err(_) => {},
    }
}

} // verus!
