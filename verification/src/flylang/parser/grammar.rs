use crate::flylang::errors::LangErrorView;
use crate::flylang::lexer::ranges::CharacterRange;
use crate::flylang::lexer::tokens::{
    BinaryOperator, Comparison, Keywords, LiteralsView, Operator, ScopeTargetView, StringItemView,
    Toggleable, TokensView, TokenView, VarDefinitionView,
};
use crate::flylang::module::ModuleView;
use crate::flylang::module::slice::{SliceView, span};
use crate::flylang::parser::ast::NodeView;
use crate::flylang::parser::ast::definables::DefinablesView;
use crate::flylang::parser::ast::definables::class::{
    ClassAttributeView, ClassItemVisibility, ClassMethodView, DefineClassView,
};
use crate::flylang::parser::ast::definables::functions::DefineFunctionView;
use crate::flylang::parser::ast::definables::variables::{
    DefineVariableView, VariableEmplacementsView,
};
use crate::flylang::parser::ast::expressions::ExpressionsView;
use crate::flylang::parser::ast::expressions::call::CallView;
use crate::flylang::parser::ast::expressions::instanciate::ClassInstanciationView;
use crate::flylang::parser::ast::expressions::literals::{
    ParsedLiteralsView, ParsedStringItemView, Word,
};
use crate::flylang::parser::ast::expressions::modified::{ModifiedDefinableView, ModifierView};
use crate::flylang::parser::ast::expressions::objects::{
    ArrayView, PrimaryObjectView, StructureEntryView, StructureView,
};
use crate::flylang::parser::ast::expressions::operations::{OperationsView, OperationView};
use crate::flylang::parser::ast::expressions::property::{PropertyView, ReadPropertyView};
use crate::flylang::parser::ast::expressions::reverse::{ReverseKind, ReverseView};
use crate::flylang::parser::ast::expressions::ternary::TernaryView;
use crate::flylang::parser::ast::instructions::InstructionsView;
use crate::flylang::parser::ast::instructions::breakers::{BreakKindView, BreakView};
use crate::flylang::parser::ast::instructions::conditionnal::{IfFallBackView, IfResultView, IfView};
use crate::flylang::parser::ast::instructions::loops::{
    EachView, LoopParameterView, LoopView, WhileView,
};
use crate::flylang::parser::ast::instructions::package::{
    PackageContentEmplacementView, PackageIncludedContentView, PackageSourceView, PackageView,
};
use crate::flylang::parser::mods::BehaviorSet;
use vstd::prelude::*;

verus! {

/// What is parsed: the tokens, and the module that they were read from.
pub struct Source {
    pub module: ModuleView,
    pub tokens: Seq<TokenView<TokensView>>,
}

pub type Instruction = NodeView<InstructionsView>;

pub type Expression = NodeView<ExpressionsView>;

pub type Branch = Seq<Instruction>;

/// What a rule gives: what it made, and the position of the token after the last one it
/// read; or the reason why it made nothing.
pub type Parsed<T> = Result<(T, int), LangErrorView>;

/// Where a list of instructions stops.
#[derive(Debug, Clone, Copy, PartialEq, Eq, Structural)]
pub enum Stopper {
    /// Where the tokens end.
    End,
    /// Before the next `)`.
    Block,
    /// Before the next `}`.
    Object,
}

/// What splits a list of instructions into branches.
#[derive(Debug, Clone, Copy, PartialEq, Eq, Structural)]
pub enum Splitter {
    Nothing,
    /// Each `,`.
    ArgSeparator,
}

impl Stopper {
    pub open spec fn stops(self, kind: TokensView) -> bool {
        match self {
            Stopper::End => false,
            Stopper::Block => kind == TokensView::Block(Toggleable::Closing),
            Stopper::Object => kind == TokensView::Object(Toggleable::Closing),
        }
    }

    /// The delimiter that is waited for, as diagnostics show it.
    pub open spec fn label(self) -> Seq<char> {
        match self {
            Stopper::Object => "'}'"@,
            _ => "')'"@,
        }
    }
}

impl Splitter {
    pub open spec fn splits(self, kind: TokensView) -> bool {
        match self {
            Splitter::Nothing => false,
            Splitter::ArgSeparator => kind == TokensView::ArgSeparator,
        }
    }
}

impl Source {
    pub open spec fn len(self) -> int {
        self.tokens.len() as int
    }

    /// Whether a token stands at `at`.
    pub open spec fn has(self, at: int) -> bool {
        0 <= at < self.tokens.len()
    }

    /// The empty slice at the end of the module.
    pub open spec fn tail(self) -> SliceView {
        span(self.module, self.module.code.len() as int, self.module.code.len() as int)
    }

    /// The slice of the token at `at`, or the end of the module where there is none.
    pub open spec fn place(self, at: int) -> SliceView {
        if self.has(at) {
            self.tokens[at].location
        } else {
            self.tail()
        }
    }

    /// The text of the token at `at`, if there is one.
    pub open spec fn text(self, at: int) -> Option<Seq<char>> {
        if self.has(at) {
            Some(self.tokens[at].location.code())
        } else {
            None
        }
    }

    /// Whether `end` lies after `at`, and not after the tokens. A rule that makes something
    /// reads one token at least, so it ends after where it began: the rules say so where
    /// they go on from where another rule ended, which is what bounds them.
    pub open spec fn forward(self, at: int, end: int) -> bool {
        at < end <= self.tokens.len()
    }
}

/// Something is missing after `after`.
pub open spec fn expected(after: SliceView, what: Seq<char>, found: Option<Seq<char>>)
    -> LangErrorView {
    LangErrorView::Expected { after, expected: Some(what), but_found: found }
}

/// The instruction that gives the value of `expression`.
pub open spec fn value_of(expression: Expression) -> Instruction {
    NodeView {
        kind: InstructionsView::ValueOf(expression.kind),
        location: expression.location,
    }
}

/// The node of kind `kind` that was read from `location`.
pub open spec fn node<K>(kind: K, location: SliceView) -> NodeView<K> {
    NodeView { kind, location }
}

/// Whether an expression ends before a token of kind `kind`, whatever the behaviors.
pub open spec fn ends_expression(kind: TokensView) -> bool {
    kind == TokensView::Block(Toggleable::Closing) || kind == TokensView::Object(
        Toggleable::Closing,
    ) || kind == TokensView::EndOfInstruction || kind == TokensView::ArgSeparator
}

/// Whether a lazy expression ends before a token of kind `kind`: before an operator and
/// before a binary operator.
pub open spec fn ends_lazy(kind: TokensView) -> bool {
    kind is Operator || kind is BinaryOperator
}

/// Whether an operator of kind `next` binds tighter than the one of kind `current` that
/// stands before it, so that it takes the operand between them.
///  - `*`, `/`, `**`, `%` and `//` bind tighter than `+` and `-`;
///  - a comparison binds tighter than a binary operator;
///  - of two binary operators, the one that is declared later binds tighter.
pub open spec fn binds_tighter(next: TokensView, current: TokensView) -> bool {
    match next {
        TokensView::Operator(operator) => operator != Operator::Add && operator
            != Operator::Substract && (current == TokensView::Operator(Operator::Add) || current
            == TokensView::Operator(Operator::Substract)),
        TokensView::Comparison(_) => !(current is Operator) && !(current is Comparison),
        TokensView::BinaryOperator(after) => match current {
            TokensView::BinaryOperator(before) => binary_rank(before) < binary_rank(after),
            _ => false,
        },
        _ => false,
    }
}

/// The place of a binary operator in its declaration.
pub open spec fn binary_rank(operator: BinaryOperator) -> int {
    match operator {
        BinaryOperator::And => 0,
        BinaryOperator::Xor => 1,
        BinaryOperator::Or => 2,
    }
}

// ------ Lists of branches
/// What each branch of `branches`, from `from` on, holds: one expression each. `failure` is
/// raised for a branch that does not hold exactly one instruction.
pub open spec fn expressions_of(
    branches: Seq<Branch>,
    from: int,
    found: Seq<Expression>,
    failure: LangErrorView,
) -> Result<Seq<Expression>, LangErrorView>
    decreases branches.len() - from,
{
    if from < 0 || from >= branches.len() {
        Ok(found)
    } else if branches[from].len() != 1 {
        Err(failure)
    } else {
        match branches[from][0].kind {
            InstructionsView::ValueOf(expression) => expressions_of(
                branches,
                from + 1,
                found.push(node(expression, branches[from][0].location)),
                failure,
            ),
            _ => Err(LangErrorView::UnexpectedNode(branches[from][0])),
        }
    }
}

/// The word that `branch` holds, and nothing else. `failure` is raised for a branch that
/// does not hold exactly one instruction.
pub open spec fn word_of(branch: Branch, failure: LangErrorView) -> Result<
    NodeView<Word>,
    LangErrorView,
> {
    if branch.len() != 1 {
        Err(failure)
    } else if branch[0].kind == InstructionsView::ValueOf(
        ExpressionsView::Literal(ParsedLiteralsView::Word),
    ) {
        Ok(node(Word, branch[0].location))
    } else {
        Err(LangErrorView::UnexpectedNode(branch[0]))
    }
}

/// The words that the branches of `branches` hold, from `from` up to `to`: one each.
pub open spec fn words_of(
    branches: Seq<Branch>,
    from: int,
    to: int,
    found: Seq<NodeView<Word>>,
    failure: LangErrorView,
) -> Result<Seq<NodeView<Word>>, LangErrorView>
    decreases to - from,
{
    if from < 0 || from >= to || to > branches.len() {
        Ok(found)
    } else {
        match word_of(branches[from], failure) {
            Err(error) => Err(error),
            Ok(word) => words_of(branches, from + 1, to, found.push(word), failure),
        }
    }
}

/// The expression that `branch` holds, and nothing else.
pub open spec fn expression_of(branch: Branch, failure: LangErrorView) -> Result<
    Expression,
    LangErrorView,
> {
    if branch.len() != 1 {
        Err(failure)
    } else {
        match branch[0].kind {
            InstructionsView::ValueOf(expression) => Ok(node(expression, branch[0].location)),
            _ => Err(LangErrorView::UnexpectedNode(branch[0])),
        }
    }
}

/// Whether the branches are those of an empty list: one branch, which holds nothing.
pub open spec fn nothing_in(branches: Seq<Branch>) -> bool {
    branches.len() == 1 && branches[0].len() == 0
}

/// A scope, as `scope_rule` finds it: its target, its branches, and the positions of the
/// tokens that open and close it.
pub struct ScopeFound {
    pub target: Option<NodeView<ScopeTargetView>>,
    pub branches: Seq<Branch>,
    pub open: int,
    pub close: int,
}

// ------ The rules
/// The instructions of `source`, from one end to the other.
#[verifier::opaque]
pub open spec fn program(source: Source) -> Result<Branch, LangErrorView>
    decreases source.tokens, source.len(), 40int,
{
    match branches_from(
        source,
        0,
        Stopper::End,
        Splitter::Nothing,
        BehaviorSet::none(),
        Seq::empty(),
        Seq::empty(),
    ) {
        Err(error) => Err(error),
        Ok((branches, _)) => Ok(branches.last()),
    }
}

/// The branches that begin at `at`, on top of the branches `done` and of the instructions
/// `current` of the branch that is being read: instructions, one after the other, up to
/// the token that `stopper` stops at, which is not read, or to the end of the tokens.
/// A token that `splitter` splits at closes a branch and opens the next. The end of an
/// instruction is passed over. Each instruction is parsed under the behaviors `persistent`.
/// Gives the branches, of which there is at least one, and where it stopped.
#[verifier::opaque]
pub open spec fn branches_from(
    source: Source,
    at: int,
    stopper: Stopper,
    splitter: Splitter,
    persistent: BehaviorSet,
    done: Seq<Branch>,
    current: Branch,
) -> Parsed<Seq<Branch>>
    decreases source.tokens, source.len() - at, 30int,
{
    if !source.has(at) {
        Ok((done.push(current), at))
    } else {
        let token = source.tokens[at];
        if stopper.stops(token.kind) {
            Ok((done.push(current), at))
        } else if splitter.splits(token.kind) {
            branches_from(
                source,
                at + 1,
                stopper,
                splitter,
                persistent,
                done.push(current),
                Seq::empty(),
            )
        } else if token.kind == TokensView::EndOfInstruction {
            branches_from(source, at + 1, stopper, splitter, persistent, done, current)
        } else {
            match instruction_rule(source, at, persistent, None) {
                Err(error) => Err(error),
                Ok((instruction, end)) => if source.forward(at, end) {
                    branches_from(
                        source,
                        end,
                        stopper,
                        splitter,
                        persistent,
                        done,
                        current.push(instruction),
                    )
                } else {
                    Err(LangErrorView::UnexpectedToken(token))
                },
            }
        }
    }
}

/// The branches between a delimiter and the token that closes it: those of `branches_from`
/// from `at` on, where the closing token is found. Gives them with the position of that
/// token.
#[verifier::opaque]
pub open spec fn enclosed(
    source: Source,
    at: int,
    stopper: Stopper,
    splitter: Splitter,
    persistent: BehaviorSet,
) -> Parsed<Seq<Branch>>
    decreases source.tokens, source.len() - at, 31int,
{
    match branches_from(source, at, stopper, splitter, persistent, Seq::empty(), Seq::empty()) {
        Err(error) => Err(error),
        Ok((branches, close)) => if source.has(close) {
            Ok((branches, close))
        } else {
            Err(expected(source.tail(), stopper.label(), None))
        },
    }
}

/// The scope that begins at `at`: `(branches)`, or `@target (branches)` with a target that
/// is a name. The branches are split at each `,`.
#[verifier::opaque]
pub open spec fn scope_rule(source: Source, at: int) -> Result<ScopeFound, LangErrorView>
    decreases source.tokens, source.len() - at, 32int,
{
    if !source.has(at) {
        Err(expected(source.tail(), "'(' or '@scope ('"@, None))
    } else {
        let token = source.tokens[at];
        match token.kind {
            TokensView::ScopeTarget(target) => if !(target is Named) {
                Err(
                    LangErrorView::UnableToParse(
                        token.location,
                        "You can only define a scope by a name"@,
                    ),
                )
            } else if !source.has(at + 1) {
                Err(expected(source.tail(), "'('"@, None))
            } else if source.tokens[at + 1].kind != TokensView::Block(Toggleable::Openning) {
                Err(expected(token.location, "'('"@, source.text(at + 1)))
            } else {
                match enclosed(
                    source,
                    at + 2,
                    Stopper::Block,
                    Splitter::ArgSeparator,
                    BehaviorSet::none(),
                ) {
                    Err(error) => Err(error),
                    Ok((branches, close)) => Ok(
                        ScopeFound {
                            target: Some(node(target, token.location)),
                            branches,
                            open: at + 1,
                            close,
                        },
                    ),
                }
            },
            TokensView::Block(Toggleable::Openning) => match enclosed(
                source,
                at + 1,
                Stopper::Block,
                Splitter::ArgSeparator,
                BehaviorSet::none(),
            ) {
                Err(error) => Err(error),
                Ok((branches, close)) => Ok(
                    ScopeFound { target: None, branches, open: at, close },
                ),
            },
            _ => Err(expected(token.location, "'(' or '@scope ('"@, None)),
        }
    }
}

/// The instruction that begins at `at`.
#[verifier::opaque]
pub open spec fn instruction_rule(
    source: Source,
    at: int,
    behaviors: BehaviorSet,
    previous: Option<Instruction>,
) -> Parsed<Instruction>
    decreases source.tokens, source.len() - at, 20int,
{
    if !source.has(at) {
        Err(expected(source.tail(), "an instruction"@, None))
    } else {
        let token = source.tokens[at];
        match token.kind {
            TokensView::EndOfInstruction => match previous {
                Some(instruction) => Ok((instruction, at + 1)),
                None => Err(LangErrorView::UnexpectedToken(token)),
            },
            TokensView::Keyword(Keywords::If) => match if_rule(source, at, behaviors, previous) {
                Err(error) => Err(error),
                Ok((found, end)) => Ok(
                    (
                        match found.kind {
                            IfResultView::If(condition) => node(
                                InstructionsView::If(condition),
                                found.location,
                            ),
                            IfResultView::Ternary(ternary) => node(
                                InstructionsView::ValueOf(ExpressionsView::Ternary(ternary)),
                                found.location,
                            ),
                        },
                        end,
                    ),
                ),
            },
            TokensView::Keyword(Keywords::While)
            | TokensView::Keyword(Keywords::Until)
            | TokensView::Keyword(Keywords::Each) => match loop_rule(source, at, previous) {
                Err(error) => Err(error),
                Ok((found, end)) => Ok(
                    (node(InstructionsView::Loop(found.kind), found.location), end),
                ),
            },
            TokensView::Keyword(Keywords::Return)
            | TokensView::Keyword(Keywords::Pass)
            | TokensView::Keyword(Keywords::Stop) => match break_rule(
                source,
                at,
                behaviors,
                previous,
            ) {
                Err(error) => Err(error),
                Ok((found, end)) => Ok(
                    (node(InstructionsView::Break(found.kind), found.location), end),
                ),
            },
            TokensView::Keyword(Keywords::Use) => match use_rule(source, at, previous) {
                Err(error) => Err(error),
                Ok((found, end)) => Ok(
                    (node(InstructionsView::Use(found.kind), found.location), end),
                ),
            },
            _ => match expression_rule(
                source,
                at,
                BehaviorSet { lazy: false, ..behaviors },
                previous,
            ) {
                Err(error) => Err(error),
                Ok((found, end)) => Ok((value_of(found), end)),
            },
        }
    }
}

/// What the head of an expression gives: the expression, where it ends, and whether
/// nothing may be added to it.
pub struct Head {
    pub expression: Expression,
    pub end: int,
    pub closed: bool,
}

/// What comes out of a rule whose result `found` is an expression of kind `wrap(kind)`.
pub open spec fn headed<K>(
    found: Parsed<NodeView<K>>,
    wrap: spec_fn(K) -> ExpressionsView,
) -> Result<Head, LangErrorView> {
    match found {
        Err(error) => Err(error),
        Ok((found, end)) => Ok(
            Head { expression: node(wrap(found.kind), found.location), end, closed: false },
        ),
    }
}

/// The expression that begins at `at`, with what follows it and belongs to it: once its
/// head is read, whatever stands after it is read as going on from it, unless the head is
/// closed, the tokens end, the next token ends an expression, or the expression is lazy
/// and the next token is an operator or a binary operator.
#[verifier::opaque]
pub open spec fn expression_rule(
    source: Source,
    at: int,
    behaviors: BehaviorSet,
    previous: Option<Instruction>,
) -> Parsed<Expression>
    decreases source.tokens, source.len() - at, 10int,
{
    match expression_head(source, at, behaviors, previous) {
        Err(error) => Err(error),
        Ok(head) => if head.closed || !source.has(head.end) || !source.forward(at, head.end)
            || ends_expression(source.tokens[head.end].kind) || (behaviors.lazy && ends_lazy(
            source.tokens[head.end].kind,
        )) {
            Ok((head.expression, head.end))
        } else {
            expression_rule(source, head.end, behaviors, Some(value_of(head.expression)))
        },
    }
}

/// The head of the expression that begins at `at`: what the token at `at` opens, given
/// the instruction `previous` that stands before it, if one does.
#[verifier::opaque]
pub open spec fn expression_head(
    source: Source,
    at: int,
    behaviors: BehaviorSet,
    previous: Option<Instruction>,
) -> Result<Head, LangErrorView>
    decreases source.tokens, source.len() - at, 9int,
{
    if !source.has(at) {
        Err(expected(source.tail(), "an expression"@, None))
    } else {
        let token = source.tokens[at];
        match token.kind {
            TokensView::Literal(_) => headed(
                literal_rule(source, at, previous),
                |kind: ParsedLiteralsView| ExpressionsView::Literal(kind),
            ),
            TokensView::VarDef(_)
            | TokensView::Keyword(Keywords::Fn)
            | TokensView::Keyword(Keywords::Cs) => headed(
                definable_rule(source, at, behaviors, previous),
                |kind: DefinablesView| ExpressionsView::Defined(kind),
            ),
            TokensView::Keyword(Keywords::If) => match if_rule(
                source,
                at,
                BehaviorSet { lazy: true, ..behaviors },
                previous,
            ) {
                Err(error) => Err(error),
                Ok((found, end)) => match found.kind {
                    IfResultView::Ternary(ternary) => Ok(
                        Head {
                            expression: node(ExpressionsView::Ternary(ternary), found.location),
                            end,
                            closed: false,
                        },
                    ),
                    IfResultView::If(condition) => Err(
                        LangErrorView::UnexpectedNode(
                            node(InstructionsView::If(condition), found.location),
                        ),
                    ),
                },
            },
            TokensView::Keyword(Keywords::New) => headed(
                instanciate_rule(source, at, behaviors, previous),
                |kind: ClassInstanciationView| ExpressionsView::Instanciate(kind),
            ),
            TokensView::Modifier => headed(
                modified_rule(source, at, behaviors, previous),
                |kind: ModifiedDefinableView| ExpressionsView::Modified(kind),
            ),
            TokensView::Object(Toggleable::Openning) => match object_rule(source, at, previous) {
                Err(error) => Err(error),
                Ok((found, end)) => Ok(
                    Head {
                        expression: node(
                            match found.kind {
                                PrimaryObjectView::Arr(array) => ExpressionsView::Array(array),
                                PrimaryObjectView::Struct(structure) => ExpressionsView::Structure(
                                    structure,
                                ),
                            },
                            found.location,
                        ),
                        end,
                        closed: false,
                    },
                ),
            },
            TokensView::Not => not_rule(source, at, behaviors, previous),
            TokensView::Operator(_) | TokensView::BinaryOperator(_) | TokensView::Comparison(_) =>
                if previous is None && token.kind == TokensView::Operator(Operator::Substract) {
                    sign_rule(source, at, behaviors)
                } else {
                    headed(
                        operation_rule(source, at, behaviors, previous),
                        |kind: OperationsView| ExpressionsView::Operation(kind),
                    )
                },
            TokensView::Block(Toggleable::Openning) => match previous {
                Some(_) => headed(
                    call_rule(source, at, previous),
                    |kind: CallView| ExpressionsView::ReturnOf(kind),
                ),
                None => priority_rule(source, at, behaviors),
            },
            TokensView::Accessor => headed(
                property_rule(source, at, behaviors, previous),
                |kind: ReadPropertyView| ExpressionsView::Read(kind),
            ),
            _ => Err(LangErrorView::UnexpectedToken(token)),
        }
    }
}

/// `!expression`, which turns the truth of the expression over, and `a !op b`, which turns
/// over that of the comparison or of the binary operation of `a` and `b`.
#[verifier::opaque]
pub open spec fn not_rule(
    source: Source,
    at: int,
    behaviors: BehaviorSet,
    previous: Option<Instruction>,
) -> Result<Head, LangErrorView>
    decreases source.tokens, source.len() - at, 5int,
{
    if !source.has(at) || !source.has(at + 1) {
        Err(LangErrorView::UnexpectedToken(source.tokens[at]))
    } else {
        let token = source.tokens[at];
        let after = source.tokens[at + 1].kind;
        let turned: Parsed<Expression> = match previous {
            Some(_) => if after is Comparison || after is BinaryOperator {
                match operation_rule(source, at + 1, behaviors, previous) {
                    Err(error) => Err(error),
                    Ok((found, end)) => Ok(
                        (node(ExpressionsView::Operation(found.kind), found.location), end),
                    ),
                }
            } else {
                Err(LangErrorView::UnexpectedToken(token))
            },
            None => expression_rule(
                source,
                at + 1,
                BehaviorSet { lazy: true, ..behaviors },
                None,
            ),
        };
        match turned {
            Err(error) => Err(error),
            Ok((found, end)) => Ok(
                Head {
                    expression: node(
                        ExpressionsView::Reverse(
                            ReverseView { kind: ReverseKind::Boolean, expression: Box::new(found) },
                        ),
                        token.location.join(found.location),
                    ),
                    end,
                    closed: false,
                },
            ),
        }
    }
}

/// `-expression`, where nothing stands before the `-`: the sign of the expression is turned
/// over. Where the expression is a number, the sign joins the number, whose slice grows to
/// hold it.
#[verifier::opaque]
pub open spec fn sign_rule(source: Source, at: int, behaviors: BehaviorSet) -> Result<
    Head,
    LangErrorView,
>
    decreases source.tokens, source.len() - at, 5int,
{
    if !source.has(at) || !source.has(at + 1) {
        Err(LangErrorView::UnexpectedToken(source.tokens[at]))
    } else {
        let token = source.tokens[at];
        match expression_rule(source, at + 1, BehaviorSet { lazy: true, ..behaviors }, None) {
            Err(error) => Err(error),
            Ok((found, end)) => {
                let location = token.location.join(found.location);
                Ok(
                    Head {
                        expression: if found.kind == ExpressionsView::Literal(
                            ParsedLiteralsView::Number,
                        ) {
                            node(found.kind, location)
                        } else {
                            node(
                                ExpressionsView::Reverse(
                                    ReverseView {
                                        kind: ReverseKind::Sign,
                                        expression: Box::new(found),
                                    },
                                ),
                                location,
                            )
                        },
                        end,
                        closed: false,
                    },
                )
            },
        }
    }
}

/// `(expression)`, where nothing stands before the `(`: the expression, given priority.
/// `()` is the empty literal. Nothing is added to a lazy one.
#[verifier::opaque]
pub open spec fn priority_rule(source: Source, at: int, behaviors: BehaviorSet) -> Result<
    Head,
    LangErrorView,
>
    decreases source.tokens, source.len() - at, 5int,
{
    if !source.has(at) {
        Err(expected(source.tail(), ")"@, None))
    } else {
        let token = source.tokens[at];
        if !source.has(at + 1) {
            Err(expected(token.location, ")"@, None))
        } else if source.tokens[at + 1].kind == TokensView::Block(Toggleable::Closing) {
            Ok(
                Head {
                    expression: node(
                        ExpressionsView::Literal(ParsedLiteralsView::Empty),
                        token.location.join(source.tokens[at + 1].location),
                    ),
                    end: at + 2,
                    closed: false,
                },
            )
        } else {
            match expression_rule(source, at + 1, BehaviorSet { lazy: false, ..behaviors }, None) {
                Err(error) => Err(error),
                Ok((found, end)) => if !source.has(end) {
                    Err(expected(found.location, ")"@, None))
                } else if source.tokens[end].kind != TokensView::Block(Toggleable::Closing) {
                    Err(expected(found.location, ")"@, source.text(end)))
                } else {
                    Ok(
                        Head {
                            expression: node(
                                ExpressionsView::Prioritized(Box::new(found)),
                                token.location.join(source.tokens[end].location),
                            ),
                            end: end + 1,
                            closed: behaviors.lazy,
                        },
                    )
                },
            }
        }
    }
}

/// The parts of the string at `at`, from the part `from` on, on top of the parts `found`.
/// Text stays text. The tokens of an expression are parsed as a program of their own, which
/// must be one expression.
#[verifier::opaque]
pub open spec fn string_parts(
    source: Source,
    at: int,
    from: int,
    found: Seq<NodeView<ParsedStringItemView>>,
) -> Result<Seq<NodeView<ParsedStringItemView>>, LangErrorView>
    decreases source.tokens, source.len() - at, 2int, parts_at(source, at).len() - from,
{
    let parts = parts_at(source, at);
    if !source.has(at) || from < 0 || from >= parts.len() {
        Ok(found)
    } else {
        match source.tokens[at].kind {
            TokensView::Literal(LiteralsView::String(items)) => match items[from].kind {
                StringItemView::Literal(text) => string_parts(
                    source,
                    at,
                    from + 1,
                    found.push(node(ParsedStringItemView::Literal(text), items[from].location)),
                ),
                StringItemView::Expression(tokens) => match program(
                    Source { module: source.module, tokens },
                ) {
                    Err(error) => Err(error),
                    Ok(instructions) => match expression_of(
                        instructions,
                        LangErrorView::UnableToParse(
                            items[from].location,
                            "Expected a single expression"@,
                        ),
                    ) {
                        Err(error) => Err(error),
                        Ok(expression) => string_parts(
                            source,
                            at,
                            from + 1,
                            found.push(
                                node(
                                    ParsedStringItemView::Expression(Box::new(expression)),
                                    items[from].location,
                                ),
                            ),
                        ),
                    },
                },
            },
            _ => Ok(found),
        }
    }
}

/// The parts of the string at `at`; none where no string stands there.
pub open spec fn parts_at(source: Source, at: int) -> Seq<TokenView<StringItemView>> {
    if source.has(at) {
        match source.tokens[at].kind {
            TokensView::Literal(LiteralsView::String(items)) => items,
            _ => Seq::empty(),
        }
    } else {
        Seq::empty()
    }
}

/// The literal at `at`, before which nothing may stand.
#[verifier::opaque]
pub open spec fn literal_rule(source: Source, at: int, previous: Option<Instruction>) -> Parsed<
    NodeView<ParsedLiteralsView>,
>
    decreases source.tokens, source.len() - at, 5int,
{
    if !source.has(at) {
        Err(expected(source.tail(), "a literal"@, None))
    } else {
        let token = source.tokens[at];
        if previous is Some {
            Err(LangErrorView::UnexpectedToken(token))
        } else {
            match token.kind {
                TokensView::Literal(LiteralsView::Word) => Ok(
                    (node(ParsedLiteralsView::Word, token.location), at + 1),
                ),
                TokensView::Literal(LiteralsView::True) => Ok(
                    (node(ParsedLiteralsView::True, token.location), at + 1),
                ),
                TokensView::Literal(LiteralsView::False) => Ok(
                    (node(ParsedLiteralsView::False, token.location), at + 1),
                ),
                TokensView::Literal(LiteralsView::Number) => Ok(
                    (node(ParsedLiteralsView::Number, token.location), at + 1),
                ),
                TokensView::Literal(LiteralsView::Empty) => Ok(
                    (node(ParsedLiteralsView::Empty, token.location), at + 1),
                ),
                TokensView::Literal(LiteralsView::String(_)) => match string_parts(
                    source,
                    at,
                    0,
                    Seq::empty(),
                ) {
                    Err(error) => Err(error),
                    Ok(parts) => Ok(
                        (node(ParsedLiteralsView::String(parts), token.location), at + 1),
                    ),
                },
                _ => Err(LangErrorView::UnexpectedToken(token)),
            }
        }
    }
}

/// The operation that `kind` marks, by the operator token `token`, between `left` and
/// `right`.
pub open spec fn operation_of(
    token: TokenView<TokensView>,
    left: Expression,
    right: Expression,
) -> OperationsView {
    let operands = (Box::new(left), Box::new(right));
    match token.kind {
        TokensView::Operator(kind) => OperationsView::Numeric(
            OperationView { operator: TokenView { kind, location: token.location }, operands },
        ),
        TokensView::Comparison(kind) => OperationsView::Comparative(
            OperationView { operator: TokenView { kind, location: token.location }, operands },
        ),
        TokensView::BinaryOperator(kind) => OperationsView::Binary(
            OperationView { operator: TokenView { kind, location: token.location }, operands },
        ),
        _ => arbitrary(),
    }
}

/// The right operand of an operator of kind `current`, once `right` is read and the next
/// token is the one at `at`: as long as the operator that comes next binds tighter than
/// `current`, it takes `right` as its left operand, and what it makes is the right
/// operand. Of two operators that bind alike, the first keeps its operand.
#[verifier::opaque]
pub open spec fn reorder(
    source: Source,
    at: int,
    behaviors: BehaviorSet,
    current: TokensView,
    right: Expression,
) -> Parsed<Expression>
    decreases source.tokens, source.len() - at, 11int,
{
    if !source.has(at) {
        Ok((right, at))
    } else {
        let next = source.tokens[at];
        if next.kind == TokensView::Not && !source.has(at + 1) {
            Err(LangErrorView::UnexpectedToken(next))
        } else {
            let coming = if next.kind == TokensView::Not {
                source.tokens[at + 1].kind
            } else {
                next.kind
            };
            if binds_tighter(coming, current) {
                match expression_rule(
                    source,
                    at,
                    BehaviorSet { lazy: true, ..behaviors },
                    Some(value_of(right)),
                ) {
                    Err(error) => Err(error),
                    Ok((found, end)) => if source.forward(at, end) {
                        reorder(source, end, behaviors, current, found)
                    } else {
                        Ok((found, end))
                    },
                }
            } else {
                Ok((right, at))
            }
        }
    }
}

/// The operation of the operator at `at`, whose left operand is `previous`. Its right
/// operand is read lazily, then reordered.
#[verifier::opaque]
pub open spec fn operation_rule(
    source: Source,
    at: int,
    behaviors: BehaviorSet,
    previous: Option<Instruction>,
) -> Parsed<NodeView<OperationsView>>
    decreases source.tokens, source.len() - at, 5int,
{
    if !source.has(at) {
        Err(expected(source.tail(), "an operator"@, None))
    } else if !(source.tokens[at].kind is Operator || source.tokens[at].kind is Comparison
        || source.tokens[at].kind is BinaryOperator) {
        Err(LangErrorView::UnexpectedToken(source.tokens[at]))
    } else {
        let token = source.tokens[at];
        match previous {
            None => Err(LangErrorView::UnexpectedToken(token)),
            Some(left) => if !source.has(at + 1) {
                Err(LangErrorView::UnexpectedToken(token))
            } else {
                match expression_rule(
                    source,
                    at + 1,
                    BehaviorSet { lazy: true, ..behaviors },
                    None,
                ) {
                    Err(error) => Err(error),
                    Ok((first, after)) => match left.kind {
                        InstructionsView::ValueOf(expression) => if !source.forward(at, after) {
                            Err(LangErrorView::UnexpectedToken(token))
                        } else {
                            match reorder(source, after, behaviors, token.kind, first) {
                                Err(error) => Err(error),
                                Ok((right, end)) => Ok(
                                    (
                                        node(
                                            operation_of(
                                                token,
                                                node(expression, left.location),
                                                right,
                                            ),
                                            left.location.join(right.location),
                                        ),
                                        end,
                                    ),
                                ),
                            }
                        },
                        _ => Err(LangErrorView::UnexpectedNode(left)),
                    },
                }
            },
        }
    }
}

/// The call that the `(` at `at` opens, of what `previous` gives: its arguments are the
/// branches up to the `)`, one expression each.
#[verifier::opaque]
pub open spec fn call_rule(source: Source, at: int, previous: Option<Instruction>) -> Parsed<
    NodeView<CallView>,
>
    decreases source.tokens, source.len() - at, 5int,
{
    if !source.has(at) {
        Err(expected(source.tail(), "("@, None))
    } else if !(source.tokens[at].kind == TokensView::Block(Toggleable::Openning)) {
        Err(LangErrorView::UnexpectedToken(source.tokens[at]))
    } else {
        let opener = source.tokens[at];
        match previous {
            None => Err(LangErrorView::UnexpectedToken(opener)),
            Some(callable) => match callable.kind {
                InstructionsView::ValueOf(called) => match enclosed(
                    source,
                    at + 1,
                    Stopper::Block,
                    Splitter::ArgSeparator,
                    BehaviorSet::none(),
                ) {
                    Err(error) => Err(error),
                    Ok((branches, close)) => {
                        let closer = source.tokens[close].location;
                        match if nothing_in(branches) {
                            Ok(Seq::empty())
                        } else {
                            expressions_of(
                                branches,
                                0,
                                Seq::empty(),
                                LangErrorView::UnableToParse(
                                    opener.location.join(closer),
                                    "One of the argument is not a valid expression"@,
                                ),
                            )
                        } {
                            Err(error) => Err(error),
                            Ok(arguments) => Ok(
                                (
                                    node(
                                        CallView {
                                            callable: Box::new(node(called, callable.location)),
                                            arguments,
                                        },
                                        callable.location.join(closer),
                                    ),
                                    close + 1,
                                ),
                            ),
                        }
                    },
                },
                _ => Err(LangErrorView::UnexpectedNode(callable)),
            },
        }
    }
}

/// The reading of a member of what `previous` gives, which the `.` at `at` opens: a word
/// or a boolean names the member, a number gives its place, and an expression between
/// brackets gives its name.
#[verifier::opaque]
pub open spec fn property_rule(
    source: Source,
    at: int,
    behaviors: BehaviorSet,
    previous: Option<Instruction>,
) -> Parsed<NodeView<ReadPropertyView>>
    decreases source.tokens, source.len() - at, 5int,
{
    if !source.has(at) {
        Err(expected(source.tail(), "."@, None))
    } else if !(source.tokens[at].kind == TokensView::Accessor) {
        Err(LangErrorView::UnexpectedToken(source.tokens[at]))
    } else {
        let token = source.tokens[at];
        match previous {
            None => Err(LangErrorView::UnexpectedToken(token)),
            Some(owner) => match owner.kind {
                InstructionsView::ValueOf(from) => if !source.has(at + 1) {
                    Err(LangErrorView::Expected {
                        after: token.location,
                        expected: None,
                        but_found: None,
                    })
                } else {
                    let next = source.tokens[at + 1];
                    let read: Parsed<NodeView<PropertyView>> = match next.kind {
                        TokensView::Literal(LiteralsView::Number) => Ok(
                            (node(PropertyView::Index, next.location), at + 2),
                        ),
                        TokensView::Literal(LiteralsView::Word)
                        | TokensView::Literal(LiteralsView::False)
                        | TokensView::Literal(LiteralsView::True) => Ok(
                            (node(PropertyView::Key, next.location), at + 2),
                        ),
                        TokensView::Block(Toggleable::Openning) => match expression_rule(
                            source,
                            at + 1,
                            BehaviorSet { lazy: true, ..behaviors },
                            None,
                        ) {
                            Err(error) => Err(error),
                            Ok((found, end)) => Ok(
                                (
                                    node(
                                        PropertyView::Expression(Box::new(found)),
                                        next.location.join(found.location),
                                    ),
                                    end,
                                ),
                            ),
                        },
                        _ => Err(LangErrorView::UnexpectedToken(next)),
                    };
                    match read {
                        Err(error) => Err(error),
                        Ok((read, end)) => Ok(
                            (
                                node(
                                    ReadPropertyView {
                                        from: Box::new(node(from, owner.location)),
                                        read,
                                    },
                                    owner.location.join(read.location),
                                ),
                                end,
                            ),
                        ),
                    }
                },
                _ => Err(LangErrorView::UnexpectedNode(owner)),
            },
        }
    }
}

/// `new call`, before which nothing may stand: the making of an object of the class that
/// is called, with the arguments of the call. The call is read lazily.
#[verifier::opaque]
pub open spec fn instanciate_rule(
    source: Source,
    at: int,
    behaviors: BehaviorSet,
    previous: Option<Instruction>,
) -> Parsed<NodeView<ClassInstanciationView>>
    decreases source.tokens, source.len() - at, 5int,
{
    if !source.has(at) {
        Err(expected(source.tail(), "new"@, None))
    } else if !(source.tokens[at].kind == TokensView::Keyword(Keywords::New)) {
        Err(LangErrorView::UnexpectedToken(source.tokens[at]))
    } else {
        let token = source.tokens[at];
        if previous is Some {
            Err(LangErrorView::UnexpectedToken(token))
        } else if !source.has(at + 1) {
            Err(expected(token.location, "<class-call>"@, None))
        } else {
            match expression_rule(source, at + 1, BehaviorSet { lazy: true, ..behaviors }, None) {
                Err(error) => Err(error),
                Ok((found, end)) => match found.kind {
                    ExpressionsView::ReturnOf(call) => Ok(
                        (
                            node(
                                ClassInstanciationView {
                                    class: call.callable,
                                    arguments: call.arguments,
                                },
                                token.location.join(found.location),
                            ),
                            end,
                        ),
                    ),
                    _ => Err(LangErrorView::UnexpectedNode(value_of(found))),
                },
            }
        }
    }
}

// ------ Definitions
/// The definition that the token at `at` opens: of a variable, a function or a class.
#[verifier::opaque]
pub open spec fn definable_rule(
    source: Source,
    at: int,
    behaviors: BehaviorSet,
    previous: Option<Instruction>,
) -> Parsed<NodeView<DefinablesView>>
    decreases source.tokens, source.len() - at, 8int,
{
    if !source.has(at) {
        Err(expected(source.tail(), "a definition"@, None))
    } else {
        match source.tokens[at].kind {
            TokensView::VarDef(_) => match variable_rule(source, at, behaviors, previous) {
                Err(error) => Err(error),
                Ok((found, end)) => Ok(
                    (node(DefinablesView::Variable(found.kind), found.location), end),
                ),
            },
            TokensView::Keyword(Keywords::Cs) => match class_rule(source, at, previous) {
                Err(error) => Err(error),
                Ok((found, end)) => Ok(
                    (node(DefinablesView::Class(found.kind), found.location), end),
                ),
            },
            TokensView::Keyword(Keywords::Fn) => match function_rule(source, at, previous) {
                Err(error) => Err(error),
                Ok((found, end)) => Ok(
                    (node(DefinablesView::Function(found.kind), found.location), end),
                ),
            },
            _ => Err(LangErrorView::UnexpectedToken(source.tokens[at])),
        }
    }
}

/// Where the variable lives that `expression` names, given the instruction `emplacement`
/// that it was read as: a word names a variable of the scope, the reading of a member
/// names that member, and anything else is an emplacement only where `any` allows it.
pub open spec fn emplacement_of(emplacement: Instruction, expression: ExpressionsView, any: bool)
    -> Result<VariableEmplacementsView, LangErrorView> {
    match expression {
        ExpressionsView::Literal(ParsedLiteralsView::Word) => Ok(VariableEmplacementsView::Scope),
        ExpressionsView::Read(property) => Ok(VariableEmplacementsView::Property(property)),
        _ => if any {
            Ok(VariableEmplacementsView::Any(Box::new(expression)))
        } else {
            Err(LangErrorView::UnexpectedNode(emplacement))
        },
    }
}

/// `emplacement: value`, `emplacement:: value` and `emplacement op: value`, where
/// `previous` is the emplacement and the mark stands at `at`. `::` makes the variable
/// read-only. With an operator, the value is the operation of the emplacement and of what
/// is written.
#[verifier::opaque]
pub open spec fn variable_rule(
    source: Source,
    at: int,
    behaviors: BehaviorSet,
    previous: Option<Instruction>,
) -> Parsed<NodeView<DefineVariableView>>
    decreases source.tokens, source.len() - at, 5int,
{
    if !source.has(at) {
        Err(expected(source.tail(), ":"@, None))
    } else {
        let token = source.tokens[at];
        match (token.kind, previous) {
            (TokensView::VarDef(mark), Some(emplacement)) => match emplacement.kind {
                InstructionsView::ValueOf(expression) => match emplacement_of(
                    emplacement,
                    expression,
                    behaviors.any || behaviors.any_recursive,
                ) {
                    Err(error) => Err(error),
                    Ok(place) => if !source.has(at + 1) {
                        Err(expected(token.location, "variable's new value"@, None))
                    } else {
                        match expression_rule(source, at + 1, behaviors.for_value(), None) {
                            Err(error) => Err(error),
                            Ok((written, end)) => {
                                let location = emplacement.location.join(written.location);
                                Ok(
                                    (
                                        node(
                                            DefineVariableView {
                                                emplacement: node(place, emplacement.location),
                                                value: Box::new(
                                                    match mark {
                                                        VarDefinitionView::WithOperation(
                                                            operator,
                                                        ) => node(
                                                            ExpressionsView::Operation(
                                                                OperationsView::Numeric(
                                                                    OperationView {
                                                                        operator,
                                                                        operands: (
                                                                            Box::new(
                                                                                node(
                                                                                    expression,
                                                                                    emplacement.location,
                                                                                ),
                                                                            ),
                                                                            Box::new(written),
                                                                        ),
                                                                    },
                                                                ),
                                                            ),
                                                            location,
                                                        ),
                                                        _ => written,
                                                    },
                                                ),
                                                readonly: mark is Constant,
                                            },
                                            location,
                                        ),
                                        end,
                                    ),
                                )
                            },
                        }
                    },
                },
                _ => Err(LangErrorView::UnexpectedNode(emplacement)),
            },
            _ => Err(LangErrorView::UnexpectedToken(token)),
        }
    }
}

/// What a function executes, given the last branch of its scope: a lone expression is what
/// the function returns.
pub open spec fn execution_of(branch: Branch) -> Branch {
    if branch.len() == 1 {
        match branch[0].kind {
            InstructionsView::ValueOf(expression) => seq![
                node(
                    InstructionsView::Break(
                        BreakView {
                            kind: BreakKindView::Return(
                                None,
                                Some(node(expression, branch[0].location)),
                            ),
                            keyword_location: branch[0].location,
                        },
                    ),
                    branch[0].location,
                ),
            ],
            _ => branch,
        }
    } else {
        branch
    }
}

/// `fn name @target (arguments, body)`, before which nothing may stand. The name and the
/// target may be left out. The body is the last branch of the scope; each branch before it
/// is an argument, which is a word.
#[verifier::opaque]
pub open spec fn function_rule(source: Source, at: int, previous: Option<Instruction>) -> Parsed<
    NodeView<DefineFunctionView>,
>
    decreases source.tokens, source.len() - at, 5int,
{
    if !source.has(at) {
        Err(expected(source.tail(), "fn"@, None))
    } else if !(source.tokens[at].kind == TokensView::Keyword(Keywords::Fn)) {
        Err(LangErrorView::UnexpectedToken(source.tokens[at]))
    } else {
        let token = source.tokens[at];
        if previous is Some || !source.has(at + 1) {
            Err(LangErrorView::UnexpectedToken(token))
        } else {
            let named = source.tokens[at + 1].kind == TokensView::Literal(LiteralsView::Word);
            let name = if named {
                Some(node(Word, source.tokens[at + 1].location))
            } else {
                None
            };
            let opening = if named {
                at + 2
            } else {
                at + 1
            };
            if !source.has(opening) {
                Err(expected(source.tokens[opening - 1].location, "("@, None))
            } else {
                let opener = source.tokens[opening];
                if !(opener.kind == TokensView::Block(Toggleable::Openning)
                    || opener.kind is ScopeTarget) {
                    Err(LangErrorView::UnexpectedToken(opener))
                } else {
                    match scope_rule(source, opening) {
                        Err(error) => Err(error),
                        Ok(scope) => {
                            let closer = source.tokens[scope.close].location;
                            match words_of(
                                scope.branches,
                                0,
                                scope.branches.len() - 1,
                                Seq::empty(),
                                LangErrorView::UnableToParse(
                                    opener.location.join(closer),
                                    "One of the argument is not a valid expression"@,
                                ),
                            ) {
                                Err(error) => Err(error),
                                Ok(arguments) => Ok(
                                    (
                                        node(
                                            DefineFunctionView {
                                                name,
                                                arguments,
                                                execution: execution_of(scope.branches.last()),
                                                scope_target: scope.target,
                                            },
                                            token.location.join(closer),
                                        ),
                                        scope.close + 1,
                                    ),
                                ),
                            }
                        },
                    }
                }
            }
        }
    }
}

/// What a class is made of, as far as its branches are read.
pub struct ClassItems {
    pub constructor: Option<NodeView<DefineFunctionView>>,
    pub parents: Seq<NodeView<Word>>,
    pub attributes: Seq<NodeView<ClassAttributeView>>,
    pub methods: Seq<NodeView<ClassMethodView>>,
    pub body_processed: bool,
}

/// What an instruction of the body of a class defines, with the modifiers that stand
/// before it, if it defines anything.
pub open spec fn class_item(instruction: Instruction) -> Option<
    (DefinablesView, Seq<NodeView<ModifierView>>),
> {
    match instruction.kind {
        InstructionsView::ValueOf(ExpressionsView::Defined(defined)) => Some(
            (defined, Seq::empty()),
        ),
        InstructionsView::ValueOf(ExpressionsView::Modified(modified)) => Some(
            (modified.definable.kind, modified.modified_by),
        ),
        _ => None,
    }
}

/// The items of the body `branch` of a class, from the instruction `from` on, on top of
/// `items`: each instruction defines a method, which is a function with a name, or an
/// attribute, which is a variable of the scope. Each item records the modifiers that stand
/// before it.
pub open spec fn class_body(branch: Branch, from: int, items: ClassItems) -> Result<
    ClassItems,
    LangErrorView,
>
    decreases branch.len() - from,
{
    if from < 0 || from >= branch.len() {
        Ok(items)
    } else {
        let instruction = branch[from];
        match class_item(instruction) {
            Some((DefinablesView::Function(method), modified_by)) => match method.name {
                None => Err(
                    LangErrorView::UnableToParse(
                        instruction.location,
                        "Methods must have a name"@,
                    ),
                ),
                Some(name) => class_body(
                    branch,
                    from + 1,
                    ClassItems {
                        methods: items.methods.push(
                            node(
                                ClassMethodView {
                                    name,
                                    arguments: method.arguments,
                                    scope_target: method.scope_target,
                                    execution: method.execution,
                                    visibility: ClassItemVisibility::Public,
                                    is_static: false,
                                    modified_by,
                                },
                                instruction.location,
                            ),
                        ),
                        ..items
                    },
                ),
            },
            Some((DefinablesView::Variable(attribute), modified_by)) => if attribute.emplacement.kind
                is Scope {
                class_body(
                    branch,
                    from + 1,
                    ClassItems {
                        attributes: items.attributes.push(
                            node(
                                ClassAttributeView {
                                    name: node(Word, attribute.emplacement.location),
                                    value: attribute.value,
                                    visibility: ClassItemVisibility::Public,
                                    is_static: false,
                                    modified_by,
                                },
                                instruction.location,
                            ),
                        ),
                        ..items
                    },
                )
            } else {
                Err(
                    LangErrorView::UnableToParse(
                        attribute.emplacement.location,
                        "Invalid attribute name"@,
                    ),
                )
            },
            _ => Err(LangErrorView::UnexpectedNode(instruction)),
        }
    }
}

/// What the branch that holds the single instruction `instruction` is to a class, before
/// its body: its constructor, one of its parents, or neither.
pub enum ClassBranch {
    Constructor(DefineFunctionView),
    Parent,
    Body,
}

pub open spec fn class_branch(branch: Branch, items: ClassItems) -> ClassBranch {
    if branch.len() == 1 {
        match branch[0].kind {
            InstructionsView::ValueOf(
                ExpressionsView::Defined(DefinablesView::Function(function)),
            ) => if items.constructor is None {
                ClassBranch::Constructor(function)
            } else {
                ClassBranch::Body
            },
            InstructionsView::ValueOf(ExpressionsView::Literal(ParsedLiteralsView::Word)) =>
                ClassBranch::Parent,
            _ => ClassBranch::Body,
        }
    } else {
        ClassBranch::Body
    }
}

/// The items of a class, from the branch `from` of its scope on, on top of `items`. A
/// branch that is a word names a parent, and stands before the constructor and the body.
/// The first branch that is a function is the constructor. Any other branch is the body,
/// of which there is one at most.
pub open spec fn class_items(
    branches: Seq<Branch>,
    from: int,
    items: ClassItems,
    location: SliceView,
) -> Result<ClassItems, LangErrorView>
    decreases branches.len() - from,
{
    if from < 0 || from >= branches.len() {
        Ok(items)
    } else {
        let branch = branches[from];
        match class_branch(branch, items) {
            ClassBranch::Constructor(function) => class_items(
                branches,
                from + 1,
                ClassItems {
                    constructor: Some(node(function, branch[0].location)),
                    ..items
                },
                location,
            ),
            ClassBranch::Parent => if items.constructor is Some || items.body_processed {
                Err(LangErrorView::UnexpectedNode(branch[0]))
            } else {
                class_items(
                    branches,
                    from + 1,
                    ClassItems {
                        parents: items.parents.push(node(Word, branch[0].location)),
                        ..items
                    },
                    location,
                )
            },
            ClassBranch::Body => if items.body_processed {
                Err(
                    LangErrorView::UnableToParse(
                        if branch.len() == 0 {
                            location
                        } else {
                            branch[0].location
                        },
                        "Cannot declare multiple body"@,
                    ),
                )
            } else {
                match class_body(branch, 0, items) {
                    Err(error) => Err(error),
                    Ok(filled) => class_items(
                        branches,
                        from + 1,
                        ClassItems { body_processed: true, ..filled },
                        location,
                    ),
                }
            },
        }
    }
}

/// `cs name (parents, constructor, body)`, before which nothing may stand.
#[verifier::opaque]
pub open spec fn class_rule(source: Source, at: int, previous: Option<Instruction>) -> Parsed<
    NodeView<DefineClassView>,
>
    decreases source.tokens, source.len() - at, 5int,
{
    if !source.has(at) {
        Err(expected(source.tail(), "cs"@, None))
    } else if !(source.tokens[at].kind == TokensView::Keyword(Keywords::Cs)) {
        Err(LangErrorView::UnexpectedToken(source.tokens[at]))
    } else {
        let keyword = source.tokens[at];
        if previous is Some {
            Err(LangErrorView::UnexpectedToken(keyword))
        } else if !source.has(at + 1) {
            Err(expected(keyword.location, "class name"@, None))
        } else if source.tokens[at + 1].kind != TokensView::Literal(LiteralsView::Word) {
            Err(LangErrorView::UnexpectedToken(source.tokens[at + 1]))
        } else if !source.has(at + 2) || source.tokens[at + 2].kind != TokensView::Block(
            Toggleable::Openning,
        ) {
            Err(expected(source.place(at + 2), "'('"@, None))
        } else {
            match enclosed(
                source,
                at + 3,
                Stopper::Block,
                Splitter::ArgSeparator,
                BehaviorSet::none(),
            ) {
                Err(error) => Err(error),
                Ok((branches, close)) => {
                    let location = keyword.location.join(source.tokens[close].location);
                    let nothing = ClassItems {
                        constructor: None,
                        parents: Seq::empty(),
                        attributes: Seq::empty(),
                        methods: Seq::empty(),
                        body_processed: false,
                    };
                    match if nothing_in(branches) {
                        Ok(nothing)
                    } else {
                        class_items(branches, 0, nothing, location)
                    } {
                        Err(error) => Err(error),
                        Ok(items) => Ok(
                            (
                                node(
                                    DefineClassView {
                                        name: node(Word, source.tokens[at + 1].location),
                                        constructor: items.constructor,
                                        parents: items.parents,
                                        attributes: items.attributes,
                                        methods: items.methods,
                                    },
                                    location,
                                ),
                                close + 1,
                            ),
                        ),
                    }
                },
            }
        }
    }
}

// ------ Objects
/// The entry of a structure that the definition of a variable makes: the emplacement is
/// the key, and the value is the value. A read-only variable makes none, nor does one
/// that is a member of a value.
pub open spec fn entry_of(variable: DefineVariableView) -> Result<
    StructureEntryView,
    LangErrorView,
> {
    if variable.readonly {
        Err(
            LangErrorView::UnableToParse(
                variable.emplacement.location.join(variable.value.location),
                "Invalid character. \"::\" cannot be used for structure items."@,
            ),
        )
    } else {
        match variable.emplacement.kind {
            VariableEmplacementsView::Property(property) => Err(
                LangErrorView::UnexpectedNode(
                    node(
                        InstructionsView::ValueOf(ExpressionsView::Read(property)),
                        variable.emplacement.location,
                    ),
                ),
            ),
            VariableEmplacementsView::Scope => Ok(
                StructureEntryView {
                    key: node(
                        ExpressionsView::Literal(ParsedLiteralsView::Word),
                        variable.emplacement.location,
                    ),
                    value: *variable.value,
                },
            ),
            VariableEmplacementsView::Any(expression) => Ok(
                StructureEntryView {
                    key: node(*expression, variable.emplacement.location),
                    value: *variable.value,
                },
            ),
        }
    }
}

/// The items of an object, from the branch `from` on, on top of `found`. Each branch holds
/// one expression. The first one decides: where it defines a variable that is no member of
/// a value, the object is a structure and every branch is an entry; otherwise it is an
/// array, and no branch is of the kind of an entry.
pub open spec fn object_items(
    branches: Seq<Branch>,
    from: int,
    found: PrimaryObjectView,
    location: SliceView,
) -> Result<PrimaryObjectView, LangErrorView>
    decreases branches.len() - from,
{
    if from < 0 || from >= branches.len() {
        Ok(found)
    } else if branches[from].len() != 1 {
        Err(
            LangErrorView::UnableToParse(
                location,
                "Expected 1 single expression per object's item"@,
            ),
        )
    } else {
        let instruction = branches[from][0];
        match instruction.kind {
            InstructionsView::ValueOf(
                ExpressionsView::Defined(DefinablesView::Variable(variable)),
            ) if !(variable.emplacement.kind is Property) => match found {
                PrimaryObjectView::Struct(structure) if from == 0 || structure.entries.len()
                    > 0 => match entry_of(variable) {
                    Err(error) => Err(error),
                    Ok(entry) => object_items(
                        branches,
                        from + 1,
                        PrimaryObjectView::Struct(
                            StructureView {
                                entries: structure.entries.push(
                                    node(entry, instruction.location),
                                ),
                            },
                        ),
                        location,
                    ),
                },
                _ => Err(LangErrorView::UnexpectedNode(instruction)),
            },
            InstructionsView::ValueOf(expression) => match found {
                PrimaryObjectView::Struct(structure) if from != 0 => Err(
                    LangErrorView::UnexpectedNode(instruction),
                ),
                PrimaryObjectView::Struct(_) => object_items(
                    branches,
                    from + 1,
                    PrimaryObjectView::Arr(
                        ArrayView { entries: seq![node(expression, instruction.location)] },
                    ),
                    location,
                ),
                PrimaryObjectView::Arr(array) => object_items(
                    branches,
                    from + 1,
                    PrimaryObjectView::Arr(
                        ArrayView {
                            entries: array.entries.push(node(expression, instruction.location)),
                        },
                    ),
                    location,
                ),
            },
            _ => Err(LangErrorView::UnexpectedNode(instruction)),
        }
    }
}

/// `{items}`, before which nothing may stand: a structure or an array. `{:}` is the empty
/// structure, `{}` the empty array. In the items, any expression may be the emplacement of
/// a variable.
#[verifier::opaque]
pub open spec fn object_rule(source: Source, at: int, previous: Option<Instruction>) -> Parsed<
    NodeView<PrimaryObjectView>,
>
    decreases source.tokens, source.len() - at, 5int,
{
    if !source.has(at) {
        Err(expected(source.tail(), "{"@, None))
    } else if !(source.tokens[at].kind == TokensView::Object(Toggleable::Openning)) {
        Err(LangErrorView::UnexpectedToken(source.tokens[at]))
    } else {
        let token = source.tokens[at];
        if previous is Some {
            Err(LangErrorView::UnexpectedToken(token))
        } else if source.has(at + 2) && source.tokens[at + 1].kind == TokensView::VarDef(
            VarDefinitionView::Normal,
        ) && source.tokens[at + 2].kind == TokensView::Object(Toggleable::Closing) {
            Ok(
                (
                    node(
                        PrimaryObjectView::Struct(StructureView { entries: Seq::empty() }),
                        token.location.join(source.tokens[at + 2].location),
                    ),
                    at + 3,
                ),
            )
        } else {
            match enclosed(
                source,
                at + 1,
                Stopper::Object,
                Splitter::ArgSeparator,
                BehaviorSet { any: true, ..BehaviorSet::none() },
            ) {
                Err(error) => Err(error),
                Ok((branches, close)) => {
                    let location = token.location.join(source.tokens[close].location);
                    match if nothing_in(branches) {
                        Ok(PrimaryObjectView::Arr(ArrayView { entries: Seq::empty() }))
                    } else {
                        object_items(
                            branches,
                            0,
                            PrimaryObjectView::Struct(StructureView { entries: Seq::empty() }),
                            location,
                        )
                    } {
                        Err(error) => Err(error),
                        Ok(found) => Ok((node(found, location), close + 1)),
                    }
                },
            }
        }
    }
}

// ------ Modifiers
/// The modifiers that the branches hold, from the branch `from` on, on top of `found`:
/// a word or a call each. `marker` is the slice of the `#` that opens them.
pub open spec fn modifiers_of(
    branches: Seq<Branch>,
    from: int,
    found: Seq<NodeView<ModifierView>>,
    marker: SliceView,
) -> Result<Seq<NodeView<ModifierView>>, LangErrorView>
    decreases branches.len() - from,
{
    if from < 0 || from >= branches.len() {
        Ok(found)
    } else {
        let branch = branches[from];
        if branch.len() == 0 {
            Err(LangErrorView::UnableToParse(marker, "Invalid syntax in the modifiers list"@))
        } else if branch.len() != 1 {
            Err(
                LangErrorView::UnableToParse(
                    branch[0].location.join(branch.last().location),
                    "Expected function"@,
                ),
            )
        } else {
            match branch[0].kind {
                InstructionsView::ValueOf(ExpressionsView::Literal(ParsedLiteralsView::Word)) =>
                    modifiers_of(
                    branches,
                    from + 1,
                    found.push(node(ModifierView::DefinedElement, branch[0].location)),
                    marker,
                ),
                InstructionsView::ValueOf(ExpressionsView::ReturnOf(call)) => modifiers_of(
                    branches,
                    from + 1,
                    found.push(node(ModifierView::CallReturn(call), branch[0].location)),
                    marker,
                ),
                _ => Err(LangErrorView::UnableToParse(branch[0].location, "Expected function"@)),
            }
        }
    }
}

/// What stands between `#` and the definition: the branches of the modifiers, and the
/// position of the token that closes their list.
pub open spec fn modifiers_list(source: Source, at: int) -> Parsed<Seq<Branch>>
    decreases source.tokens, source.len() - at, 33int,
{
    if source.has(at) && source.tokens[at].kind == TokensView::Object(Toggleable::Openning) {
        enclosed(source, at + 1, Stopper::Object, Splitter::ArgSeparator, BehaviorSet::none())
    } else {
        match scope_rule(source, at) {
            Err(error) => Err(error),
            Ok(scope) => match scope.target {
                Some(target) => Err(
                    LangErrorView::UnableToParse(target.location, "Invalid syntax"@),
                ),
                None => Ok((scope.branches, scope.close)),
            },
        }
    }
}

/// `#(modifiers) definition` and `#{modifiers} definition`, before which nothing may
/// stand: the definition, with the modifiers that stand before it.
#[verifier::opaque]
pub open spec fn modified_rule(
    source: Source,
    at: int,
    behaviors: BehaviorSet,
    previous: Option<Instruction>,
) -> Parsed<NodeView<ModifiedDefinableView>>
    decreases source.tokens, source.len() - at, 5int,
{
    if !source.has(at) {
        Err(expected(source.tail(), "#"@, None))
    } else if !(source.tokens[at].kind == TokensView::Modifier) {
        Err(LangErrorView::UnexpectedToken(source.tokens[at]))
    } else {
        let token = source.tokens[at];
        if previous is Some {
            Err(LangErrorView::UnexpectedToken(token))
        } else {
            match modifiers_list(source, at + 1) {
                Err(error) => Err(error),
                Ok((branches, close)) => match modifiers_of(
                    branches,
                    0,
                    Seq::empty(),
                    token.location,
                ) {
                    Err(error) => Err(error),
                    Ok(modified_by) => if !source.has(close + 1) || !source.forward(
                        at,
                        close + 1,
                    ) {
                        Err(LangErrorView::UnableToParse(source.tail(), "Expected function"@))
                    } else {
                        match expression_rule(source, close + 1, behaviors, None) {
                            Err(error) => Err(error),
                            Ok((found, end)) => match found.kind {
                                ExpressionsView::Defined(definable) => Ok(
                                    (
                                        node(
                                            ModifiedDefinableView {
                                                definable: node(definable, found.location),
                                                modified_by,
                                            },
                                            token.location.join(found.location),
                                        ),
                                        end,
                                    ),
                                ),
                                _ => Err(
                                    LangErrorView::UnableToParse(
                                        found.location,
                                        "Expected a function or variable definition"@,
                                    ),
                                ),
                            },
                        }
                    },
                },
            }
        }
    }
}

// ------ Control flow
/// `if @target (condition, process)`, which may go on with `else`, and
/// `if (condition, yes, no)`, which is a value and takes no target. Nothing may stand
/// before the `if`.
#[verifier::opaque]
pub open spec fn if_rule(
    source: Source,
    at: int,
    behaviors: BehaviorSet,
    previous: Option<Instruction>,
) -> Parsed<NodeView<IfResultView>>
    decreases source.tokens, source.len() - at, 6int,
{
    if !source.has(at) {
        Err(expected(source.tail(), "if"@, None))
    } else if !(source.tokens[at].kind == TokensView::Keyword(Keywords::If)) {
        Err(LangErrorView::UnexpectedToken(source.tokens[at]))
    } else {
        let token = source.tokens[at];
        if previous is Some || !source.has(at + 1) {
            Err(LangErrorView::UnexpectedToken(token))
        } else {
            let opener = source.tokens[at + 1];
            if !(opener.kind == TokensView::Block(Toggleable::Openning)
                || opener.kind is ScopeTarget) {
                Err(expected(token.location, "(<condition>, <code>)"@, source.text(at + 1)))
            } else {
                match scope_rule(source, at + 1) {
                    Err(error) => Err(error),
                    Ok(scope) => {
                        let closer = source.tokens[scope.close].location;
                        let arguments = opener.location.join(closer);
                        let branches = scope.branches;
                        if branches.len() != 2 && branches.len() != 3 {
                            Err(
                                LangErrorView::UnableToParse(
                                    arguments,
                                    "Expected 2 or 3 arguments"@,
                                ),
                            )
                        } else {
                            match expression_of(
                                branches[0],
                                LangErrorView::UnableToParse(
                                    arguments,
                                    "Unable to validate the condition. Expected 1 expression"@,
                                ),
                            ) {
                                Err(error) => Err(error),
                                Ok(condition) => if branches.len() == 3 {
                                    ternary_of(source, at, scope, condition)
                                } else if !source.forward(at, scope.close + 1) {
                                    Err(LangErrorView::UnexpectedToken(token))
                                } else if source.has(scope.close + 1) && source.tokens[scope.close
                                    + 1].kind == TokensView::Keyword(Keywords::Else) {
                                    match fallback_rule(source, scope.close + 1, behaviors) {
                                        Err(error) => Err(error),
                                        Ok((fallback, end)) => Ok(
                                            (
                                                node(
                                                    IfResultView::If(
                                                        IfView {
                                                            condition,
                                                            process: branches[1],
                                                            fallback: Some(Box::new(fallback)),
                                                            scope_target: scope.target,
                                                        },
                                                    ),
                                                    token.location.join(fallback.location),
                                                ),
                                                end,
                                            ),
                                        ),
                                    }
                                } else {
                                    Ok(
                                        (
                                            node(
                                                IfResultView::If(
                                                    IfView {
                                                        condition,
                                                        process: branches[1],
                                                        fallback: None,
                                                        scope_target: scope.target,
                                                    },
                                                ),
                                                token.location.join(closer),
                                            ),
                                            scope.close + 1,
                                        ),
                                    )
                                },
                            }
                        }
                    },
                }
            }
        }
    }
}

/// The value that an `if` of three branches is, given its condition.
pub open spec fn ternary_of(source: Source, at: int, scope: ScopeFound, condition: Expression)
    -> Parsed<NodeView<IfResultView>> {
    let closer = source.tokens[scope.close].location;
    let failure = LangErrorView::UnableToParse(
        source.tokens[at + 1].location.join(closer),
        "Unable to parse ternary items : expected 1 expression per argument"@,
    );
    match scope.target {
        Some(target) => Err(
            LangErrorView::UnexpectedToken(
                TokenView { kind: TokensView::ScopeTarget(target.kind), location: target.location },
            ),
        ),
        None => match expression_of(scope.branches[1], failure) {
            Err(error) => Err(error),
            Ok(yes) => match expression_of(scope.branches[2], failure) {
                Err(error) => Err(error),
                Ok(no) => Ok(
                    (
                        node(
                            IfResultView::Ternary(
                                TernaryView {
                                    condition: Box::new(condition),
                                    yes: Box::new(yes),
                                    no: Box::new(no),
                                },
                            ),
                            source.tokens[at].location.join(closer),
                        ),
                        scope.close + 1,
                    ),
                ),
            },
        },
    }
}

/// What the `else` at `at` opens: another `if`, or `(process)`.
#[verifier::opaque]
pub open spec fn fallback_rule(source: Source, at: int, behaviors: BehaviorSet) -> Parsed<
    NodeView<IfFallBackView>,
>
    decreases source.tokens, source.len() - at, 7int,
{
    if !source.has(at) {
        Err(expected(source.tail(), "else"@, None))
    } else if source.tokens[at].kind != TokensView::Keyword(Keywords::Else) || !source.has(at + 1) {
        Err(LangErrorView::UnexpectedToken(source.tokens[at]))
    } else {
        let token = source.tokens[at];
        match source.tokens[at + 1].kind {
            TokensView::Keyword(Keywords::If) => match if_rule(source, at + 1, behaviors, None) {
                Err(error) => Err(error),
                Ok((found, end)) => match found.kind {
                    IfResultView::If(condition) => Ok(
                        (
                            node(
                                IfFallBackView::If(node(condition, found.location)),
                                token.location.join(found.location),
                            ),
                            end,
                        ),
                    ),
                    IfResultView::Ternary(ternary) => Err(
                        LangErrorView::UnexpectedNode(
                            node(
                                InstructionsView::ValueOf(ExpressionsView::Ternary(ternary)),
                                found.location,
                            ),
                        ),
                    ),
                },
            },
            TokensView::Block(Toggleable::Openning) => match enclosed(
                source,
                at + 2,
                Stopper::Block,
                Splitter::Nothing,
                BehaviorSet::none(),
            ) {
                Err(error) => Err(error),
                Ok((branches, close)) => Ok(
                    (
                        node(
                            IfFallBackView::Process(None, branches[0]),
                            token.location.join(source.tokens[close].location),
                        ),
                        close + 1,
                    ),
                ),
            },
            _ => Err(expected(token.location, "( or <if_instruction>"@, source.text(at + 1))),
        }
    }
}

/// The name that the branch `at` of a loop gives, if the loop has `names` branches for
/// names and this is one of them.
pub open spec fn loop_name(branches: Seq<Branch>, at: int, failure: LangErrorView) -> Result<
    Option<NodeView<Word>>,
    LangErrorView,
> {
    if 1 <= at < branches.len() - 1 {
        match word_of(branches[at], failure) {
            Err(error) => Err(error),
            Ok(word) => Ok(Some(word)),
        }
    } else {
        Ok(None)
    }
}

/// `while @target (condition, index, process)`, `until`, which is `while` with the
/// condition turned over, and `each @target (iterable, item, index, process)`. The
/// names and the target may be left out. Nothing may stand before the keyword.
#[verifier::opaque]
pub open spec fn loop_rule(source: Source, at: int, previous: Option<Instruction>) -> Parsed<
    NodeView<LoopView>,
>
    decreases source.tokens, source.len() - at, 5int,
{
    if !source.has(at) {
        Err(expected(source.tail(), "a loop"@, None))
    } else if !(source.tokens[at].kind == TokensView::Keyword(Keywords::While) || source.tokens[at].kind
        == TokensView::Keyword(Keywords::Until) || source.tokens[at].kind == TokensView::Keyword(
        Keywords::Each,
    )) {
        Err(LangErrorView::UnexpectedToken(source.tokens[at]))
    } else {
        let token = source.tokens[at];
        if previous is Some {
            Err(LangErrorView::UnexpectedToken(token))
        } else {
            match scope_rule(source, at + 1) {
                Err(error) => Err(error),
                Ok(scope) => {
                    let closer = source.tokens[scope.close].location;
                    let inside = source.tokens[scope.open].location.join(closer);
                    let branches = scope.branches;
                    let each = token.kind == TokensView::Keyword(Keywords::Each);
                    let invalid = LangErrorView::UnableToParse(
                        inside,
                        "Invalid arguments given."@,
                    );
                    match expression_of(
                        branches[0],
                        LangErrorView::UnableToParse(
                            inside,
                            if each {
                                "Missing the iteratable"@
                            } else {
                                "Missing the condition"@
                            },
                        ),
                    ) {
                        Err(error) => Err(error),
                        Ok(driver) => match loop_name(branches, 1, invalid) {
                            Err(error) => Err(error),
                            Ok(first) => match if each {
                                loop_name(branches, 2, invalid)
                            } else {
                                Ok(None)
                            } {
                                Err(error) => Err(error),
                                Ok(second) => if branches.len() < 2 || branches.len() > (if each {
                                    4int
                                } else {
                                    3int
                                }) {
                                    Err(
                                        LangErrorView::UnableToParse(
                                            inside,
                                            "Too much arguments or missing code to execute each loop repetition. (Add a trailing ',' to give an empty execution)"@,
                                        ),
                                    )
                                } else {
                                    Ok(
                                        (
                                            node(
                                                LoopView {
                                                    parameter: if each {
                                                        LoopParameterView::Through(
                                                            EachView {
                                                                iterable: Box::new(driver),
                                                                item: first,
                                                                index: second,
                                                            },
                                                        )
                                                    } else {
                                                        LoopParameterView::Conditionnaly(
                                                            WhileView {
                                                                condition: Box::new(
                                                                    if token.kind
                                                                        == TokensView::Keyword(
                                                                        Keywords::Until,
                                                                    ) {
                                                                        node(
                                                                            ExpressionsView::Reverse(
                                                                                ReverseView {
                                                                                    kind: ReverseKind::Boolean,
                                                                                    expression: Box::new(
                                                                                        driver,
                                                                                    ),
                                                                                },
                                                                            ),
                                                                            driver.location,
                                                                        )
                                                                    } else {
                                                                        driver
                                                                    },
                                                                ),
                                                                iteration_number: first,
                                                            },
                                                        )
                                                    },
                                                    process: branches.last(),
                                                    scope_target: scope.target,
                                                },
                                                token.location.join(closer),
                                            ),
                                            scope.close + 1,
                                        ),
                                    )
                                },
                            },
                        },
                    }
                },
            }
        }
    }
}

/// `stop @target`, `pass @target` and `return @target value`, before which nothing may
/// stand. The target may be left out, and so may the value: none is read before `,`, `)`
/// and the end of the instruction.
#[verifier::opaque]
pub open spec fn break_rule(
    source: Source,
    at: int,
    behaviors: BehaviorSet,
    previous: Option<Instruction>,
) -> Parsed<NodeView<BreakView>>
    decreases source.tokens, source.len() - at, 5int,
{
    if !source.has(at) {
        Err(expected(source.tail(), "a breaker"@, None))
    } else {
        let token = source.tokens[at];
        if previous is Some {
            Err(LangErrorView::UnexpectedToken(token))
        } else {
            let targeted = source.has(at + 1) && source.tokens[at + 1].kind is ScopeTarget;
            let target = if targeted {
                match source.tokens[at + 1].kind {
                    TokensView::ScopeTarget(kind) => Some(
                        TokenView { kind, location: source.tokens[at + 1].location },
                    ),
                    _ => None,
                }
            } else {
                None
            };
            let next = if targeted {
                at + 2
            } else {
                at + 1
            };
            let ahead = if targeted {
                token.location.join(source.tokens[at + 1].location)
            } else {
                token.location
            };
            match token.kind {
                TokensView::Keyword(Keywords::Pass) => Ok(
                    (
                        node(
                            BreakView {
                                kind: BreakKindView::Pass(target),
                                keyword_location: token.location,
                            },
                            ahead,
                        ),
                        next,
                    ),
                ),
                TokensView::Keyword(Keywords::Stop) => Ok(
                    (
                        node(
                            BreakView {
                                kind: BreakKindView::Stop(target),
                                keyword_location: token.location,
                            },
                            ahead,
                        ),
                        next,
                    ),
                ),
                TokensView::Keyword(Keywords::Return) => if source.has(next) && !(
                source.tokens[next].kind == TokensView::ArgSeparator || source.tokens[next].kind
                    == TokensView::Block(Toggleable::Closing) || source.tokens[next].kind
                    == TokensView::EndOfInstruction) {
                    match expression_rule(source, next, behaviors, None) {
                        Err(error) => Err(error),
                        Ok((value, end)) => Ok(
                            (
                                node(
                                    BreakView {
                                        kind: BreakKindView::Return(target, Some(value)),
                                        keyword_location: token.location,
                                    },
                                    ahead.join(value.location),
                                ),
                                end,
                            ),
                        ),
                    }
                } else {
                    Ok(
                        (
                            node(
                                BreakView {
                                    kind: BreakKindView::Return(target, None),
                                    keyword_location: token.location,
                                },
                                ahead,
                            ),
                            next,
                        ),
                    )
                },
                _ => Err(LangErrorView::UnexpectedToken(token)),
            }
        }
    }
}

// ------ Importations
/// Where what a `use` imports comes from, given the token at `at`: a string that is one
/// piece of text. It is the path of a file where it begins as one, and otherwise the
/// name of a package.
pub open spec fn use_source(source: Source, at: int) -> Result<PackageSourceView, LangErrorView> {
    if !source.has(at) {
        Err(LangErrorView::UnexpectedToken(source.tokens.last()))
    } else {
        let token = source.tokens[at];
        match token.kind {
            TokensView::Literal(LiteralsView::String(parts)) => if parts.len() == 1 {
                match parts[0].kind {
                    StringItemView::Literal(text) => if text.len() == 0 {
                        Err(
                            LangErrorView::UnableToParse(
                                token.location,
                                "Invalid package path (It must be a string that does not contain expressions)."@,
                            ),
                        )
                    } else if CharacterRange::FileLocationStart.holds(text[0]) {
                        Ok(PackageSourceView::File(text))
                    } else {
                        Ok(PackageSourceView::Package(text))
                    },
                    _ => Err(
                        LangErrorView::UnableToParse(
                            token.location,
                            "Expected a string to describe where to find the package. Note that the string must not include expressions in it."@,
                        ),
                    ),
                }
            } else {
                Err(
                    LangErrorView::UnableToParse(
                        token.location,
                        "Expected a string to describe where to find the package. Note that the string must not include expressions in it."@,
                    ),
                )
            },
            _ => Err(LangErrorView::UnexpectedToken(token)),
        }
    }
}

/// Where what a `use` imports goes, given the token at `at` that follows its source, and
/// where the `use` ends: `in name` puts it in a variable; otherwise nothing but the end of
/// the instruction may follow.
pub open spec fn use_emplacement(source: Source, at: int) -> Parsed<
    PackageContentEmplacementView,
> {
    if !source.has(at) {
        Ok((PackageContentEmplacementView::Global, at))
    } else if source.tokens[at].kind == TokensView::Keyword(Keywords::In) && source.has(at + 1)
        && source.tokens[at + 1].kind == TokensView::Literal(LiteralsView::Word) {
        Ok(
            (
                PackageContentEmplacementView::Variable(
                    node(Word, source.tokens[at + 1].location),
                ),
                at + 2,
            ),
        )
    } else if source.tokens[at].kind != TokensView::EndOfInstruction {
        Err(LangErrorView::UnexpectedToken(source.tokens[at]))
    } else {
        Ok((PackageContentEmplacementView::Global, at))
    }
}

/// What a `use` takes of what it imports, given the token at `at` that follows the
/// keyword, and where its source stands: `{names} from` and `(names) from` take the
/// names; otherwise all is taken.
#[verifier::opaque]
pub open spec fn use_getters(source: Source, at: int) -> Parsed<PackageIncludedContentView>
    decreases source.tokens, source.len() - at, 4int,
{
    if !source.has(at) || !(source.tokens[at].kind == TokensView::Object(Toggleable::Openning)
        || source.tokens[at].kind == TokensView::Block(Toggleable::Openning)) {
        Ok((PackageIncludedContentView::All, at))
    } else {
        match enclosed(
            source,
            at + 1,
            if source.tokens[at].kind is Object {
                Stopper::Object
            } else {
                Stopper::Block
            },
            Splitter::ArgSeparator,
            BehaviorSet::none(),
        ) {
            Err(error) => Err(error),
            Ok((branches, close)) => match words_of(
                branches,
                0,
                branches.len() as int,
                Seq::empty(),
                LangErrorView::UnableToParse(
                    source.tokens[close].location,
                    "Invalid syntax inside the block"@,
                ),
            ) {
                Err(error) => Err(error),
                Ok(names) => if source.has(close + 1) && source.tokens[close + 1].kind
                    == TokensView::Keyword(Keywords::From) {
                    Ok((PackageIncludedContentView::Only(names), close + 2))
                } else {
                    Err(
                        expected(
                            source.tokens[close].location,
                            "from <module>"@,
                            source.text(close + 1),
                        ),
                    )
                },
            },
        }
    }
}

/// `use {names} from "source" in name`, before which nothing may stand. The names and
/// the variable may be left out.
#[verifier::opaque]
pub open spec fn use_rule(source: Source, at: int, previous: Option<Instruction>) -> Parsed<
    NodeView<PackageView>,
>
    decreases source.tokens, source.len() - at, 5int,
{
    if !source.has(at) {
        Err(expected(source.tail(), "use"@, None))
    } else if !(source.tokens[at].kind == TokensView::Keyword(Keywords::Use)) {
        Err(LangErrorView::UnexpectedToken(source.tokens[at]))
    } else {
        let token = source.tokens[at];
        if previous is Some {
            Err(LangErrorView::UnexpectedToken(token))
        } else if !source.has(at + 1) {
            Err(expected(token.location, "Package location"@, None))
        } else {
            match use_getters(source, at + 1) {
                Err(error) => Err(error),
                Ok((included, from)) => match use_source(source, from) {
                    Err(error) => Err(error),
                    Ok(origin) => match use_emplacement(source, from + 1) {
                        Err(error) => Err(error),
                        Ok((emplacement, end)) => Ok(
                            (
                                node(
                                    PackageView { source: origin, included, emplacement },
                                    token.location.join(source.tokens[end - 1].location),
                                ),
                                end,
                            ),
                        ),
                    },
                },
            }
        }
    }
}

// ------ What holds of the rules
/// Whether two operators bind alike: two of `+` and `-`, two of `*`, `/`, `**`, `%` and
/// `//`, or twice the same binary operator.
pub open spec fn binds_alike(first: TokensView, second: TokensView) -> bool {
    match (first, second) {
        (TokensView::Operator(a), TokensView::Operator(b)) => (a == Operator::Add || a
            == Operator::Substract) == (b == Operator::Add || b == Operator::Substract),
        (TokensView::BinaryOperator(a), TokensView::BinaryOperator(b)) => a == b,
        _ => false,
    }
}

/// Operators are reordered in a stable way: an operator never takes the operand of one
/// that binds alike and stands before it. The right operand of the first of them, which is
/// read lazily, ends before the second, and the second gets the whole first operation as
/// its left operand: the tree leans to the left.
pub proof fn lemma_reordering_is_stable(
    source: Source,
    at: int,
    behaviors: BehaviorSet,
    current: TokensView,
    right: Expression,
)
    requires
        source.has(at),
        binds_alike(source.tokens[at].kind, current),
    ensures
        !binds_tighter(source.tokens[at].kind, current),
        !binds_tighter(current, source.tokens[at].kind),
        ends_lazy(source.tokens[at].kind),
        reorder(source, at, behaviors, current, right) == Ok::<(Expression, int), LangErrorView>(
            (right, at),
        ),
{
    reveal(reorder);
}

/// The left operand of an operation.
pub open spec fn left_operand(operation: OperationsView) -> Expression {
    match operation {
        OperationsView::Numeric(operation) => *operation.operands.0,
        OperationsView::Binary(operation) => *operation.operands.0,
        OperationsView::Comparative(operation) => *operation.operands.0,
    }
}

/// An operation takes the whole expression that stands before its operator as its left
/// operand. So of two operators that bind alike, the second holds the operation of the
/// first on its left: the tree leans to the left.
pub proof fn lemma_operations_lean_left(
    source: Source,
    at: int,
    behaviors: BehaviorSet,
    left: Expression,
)
    requires
        source.has(at),
        source.tokens[at].kind is Operator || source.tokens[at].kind is BinaryOperator
            || source.tokens[at].kind is Comparison,
    ensures
        operation_rule(source, at, behaviors, Some(value_of(left))) matches Ok((found, _))
            ==> left_operand(found.kind) == left,
{
    reveal(operation_rule);
}

/// In a structure, every entry is written with `:`. The definition of a read-only
/// variable, which is written with `::`, makes no entry.
pub proof fn lemma_entries_are_not_constants(variable: DefineVariableView)
    ensures
        entry_of(variable) is Ok ==> !variable.readonly,
{
}

/// An object that holds the definition of a read-only variable that is no member of a
/// value, in its branch `at`, is refused: no structure holds an entry written with `::`.
pub proof fn lemma_objects_refuse_constants(
    branches: Seq<Branch>,
    from: int,
    found: PrimaryObjectView,
    location: SliceView,
    at: int,
    variable: DefineVariableView,
)
    requires
        0 <= from <= at < branches.len(),
        branches[at].len() == 1,
        branches[at][0].kind == InstructionsView::ValueOf(
            ExpressionsView::Defined(DefinablesView::Variable(variable)),
        ),
        variable.readonly,
        !(variable.emplacement.kind is Property),
    ensures
        object_items(branches, from, found, location) is Err,
    decreases at - from,
{
    if from < at {
        if branches[from].len() == 1 {
            let instruction = branches[from][0];
            match instruction.kind {
                InstructionsView::ValueOf(
                    ExpressionsView::Defined(DefinablesView::Variable(other)),
                ) if !(other.emplacement.kind is Property) => {
                    match found {
                        PrimaryObjectView::Struct(structure) => {
                            if from == 0 || structure.entries.len() > 0 {
                                match entry_of(other) {
                                    Err(_) => {},
                                    Ok(entry) => {
                                        lemma_objects_refuse_constants(
                                            branches,
                                            from + 1,
                                            PrimaryObjectView::Struct(
                                                StructureView {
                                                    entries: structure.entries.push(
                                                        node(entry, instruction.location),
                                                    ),
                                                },
                                            ),
                                            location,
                                            at,
                                            variable,
                                        );
                                    },
                                }
                            }
                        },
                        _ => {},
                    }
                },
                InstructionsView::ValueOf(expression) => {
                    match found {
                        PrimaryObjectView::Struct(structure) => {
                            if from == 0 {
                                lemma_objects_refuse_constants(
                                    branches,
                                    from + 1,
                                    PrimaryObjectView::Arr(
                                        ArrayView {
                                            entries: seq![node(expression, instruction.location)],
                                        },
                                    ),
                                    location,
                                    at,
                                    variable,
                                );
                            }
                        },
                        PrimaryObjectView::Arr(array) => {
                            lemma_objects_refuse_constants(
                                branches,
                                from + 1,
                                PrimaryObjectView::Arr(
                                    ArrayView {
                                        entries: array.entries.push(
                                            node(expression, instruction.location),
                                        ),
                                    },
                                ),
                                location,
                                at,
                                variable,
                            );
                        },
                    }
                },
                _ => {},
            }
        }
    }
}

/// The sign of a number is never turned over: where `-` stands before a number, the sign
/// joins the number.
pub proof fn lemma_sign_joins_number(source: Source, at: int, behaviors: BehaviorSet)
    ensures
        match sign_rule(source, at, behaviors) {
            Ok(head) => match head.expression.kind {
                ExpressionsView::Reverse(reverse) => reverse.kind == ReverseKind::Sign
                    && reverse.expression.kind != ExpressionsView::Literal(
                    ParsedLiteralsView::Number,
                ),
                _ => true,
            },
            Err(_) => true,
        },
{
    reveal(sign_rule);
}

} // verus!
