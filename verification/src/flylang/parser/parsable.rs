use crate::flylang::errors::{LangErrorView, LangResult};
use crate::flylang::lexer::tokens::{ScopeTarget, ScopeTargetView, TokensView};
use crate::flylang::module::slice::LangModuleSlice;
use crate::flylang::parser::{
    branch_views, grammar, missing, Parser, previous_view, unable, unexpected_node,
};
use crate::flylang::parser::ast::{Node, NodeView};
use crate::flylang::parser::ast::definables::{Definables, DefinablesView};
use crate::flylang::parser::ast::definables::class::{DefineClass, DefineClassView};
use crate::flylang::parser::ast::definables::functions::{DefineFunction, DefineFunctionView};
use crate::flylang::parser::ast::definables::variables::{DefineVariable, DefineVariableView};
use crate::flylang::parser::ast::expressions::{
    expression_views, Expressions, ExpressionsView, lemma_expression_views_push,
};
use crate::flylang::parser::ast::expressions::call::{Call, CallView};
use crate::flylang::parser::ast::expressions::instanciate::{
    ClassInstanciation, ClassInstanciationView,
};
use crate::flylang::parser::ast::expressions::literals::{
    lemma_word_views_push, ParsedLiterals, ParsedLiteralsView, Word, word_views,
};
use crate::flylang::parser::ast::expressions::modified::{ModifiedDefinable, ModifiedDefinableView};
use crate::flylang::parser::ast::expressions::objects::{PrimaryObject, PrimaryObjectView};
use crate::flylang::parser::ast::expressions::operations::{Operations, OperationsView};
use crate::flylang::parser::ast::expressions::property::{ReadProperty, ReadPropertyView};
use crate::flylang::parser::ast::instructions::{instruction_views, Instructions, InstructionsView};
use crate::flylang::parser::ast::instructions::breakers::{Break, BreakView};
use crate::flylang::parser::ast::instructions::conditionnal::{
    If, IfFallBack, IfFallBackView, IfResult, IfResultView,
};
use crate::flylang::parser::ast::instructions::loops::{Loop, LoopView};
use crate::flylang::parser::ast::instructions::package::{Package, PackageView};
use crate::flylang::parser::grammar::{
    break_rule, call_rule, class_rule, definable_rule, expected, expression_rule, fallback_rule,
    function_rule, if_rule, instanciate_rule, Instruction, instruction_rule, literal_rule,
    loop_rule, modified_rule, object_rule, operation_rule, Parsed, property_rule, Source, use_rule,
    variable_rule,
};
use crate::flylang::parser::mods::BehaviorSet;
use vstd::prelude::*;

verus! {

/// Whether the branches are those of an empty list: one branch, which holds nothing.
pub fn nothing_in(branches: &Vec<Vec<Node<Instructions>>>) -> (r: bool)
    ensures
        r == grammar::nothing_in(branch_views(branches@)),
{
    branches.len() == 1 && branches[0].len() == 0
}

/// The expression that the branch holds, and nothing else. Where the branch does not hold
/// exactly one instruction, `location` makes no sense, for the reason `reason`.
pub fn expression_of(
    branch: &Vec<Node<Instructions>>,
    location: &LangModuleSlice,
    reason: &str,
) -> (r: LangResult<Node<Expressions>>)
    ensures
        match grammar::expression_of(
            instruction_views(branch@),
            LangErrorView::UnableToParse(location@, reason@),
        ) {
            Ok(expression) => r is Ok && r->Ok_0@ == expression,
            Err(error) => r is Err && r->Err_0@ == error,
        },
{
    if branch.len() != 1 {
        return Err(unable(location.duplicate(), reason));
    }
    match &branch[0].kind {
        Instructions::ValueOf(expression) => Ok(
            Node { kind: expression.duplicate(), location: branch[0].location.duplicate() },
        ),
        _ => Err(unexpected_node(branch[0].duplicate())),
    }
}

/// The expressions that the branches hold: one each.
pub fn expressions_of(
    branches: &Vec<Vec<Node<Instructions>>>,
    location: &LangModuleSlice,
    reason: &str,
) -> (r: LangResult<Vec<Node<Expressions>>>)
    ensures
        match grammar::expressions_of(
            branch_views(branches@),
            0,
            Seq::empty(),
            LangErrorView::UnableToParse(location@, reason@),
        ) {
            Ok(expressions) => r is Ok && expression_views(r->Ok_0@) == expressions,
            Err(error) => r is Err && r->Err_0@ == error,
        },
{
    let ghost failure = LangErrorView::UnableToParse(location@, reason@);
    let mut found: Vec<Node<Expressions>> = Vec::new();
    let mut at: usize = 0;
    assert(expression_views(found@) =~= Seq::empty());
    while at < branches.len()
        invariant
            at <= branches.len(),
            failure == LangErrorView::UnableToParse(location@, reason@),
            grammar::expressions_of(branch_views(branches@), 0, Seq::empty(), failure)
                == grammar::expressions_of(
                branch_views(branches@),
                at as int,
                expression_views(found@),
                failure,
            ),
        decreases branches.len() - at,
    {
        let branch = &branches[at];
        if branch.len() != 1 {
            return Err(unable(location.duplicate(), reason));
        }
        match &branch[0].kind {
            Instructions::ValueOf(expression) => {
                let node = Node {
                    kind: expression.duplicate(),
                    location: branch[0].location.duplicate(),
                };
                proof {
                    lemma_expression_views_push(found@, node);
                }
                found.push(node);
            },
            _ => {
                return Err(unexpected_node(branch[0].duplicate()));
            },
        }
        at = at + 1;
    }
    Ok(found)
}

/// An instruction is the value of a word just where its view is.
pub proof fn lemma_word_view(kind: Instructions)
    ensures
        (kind@ == InstructionsView::ValueOf(ExpressionsView::Literal(ParsedLiteralsView::Word)))
            == (kind matches Instructions::ValueOf(Expressions::Literal(ParsedLiterals::Word))),
{
    match kind {
        Instructions::ValueOf(expression) => {
            match expression {
                Expressions::Literal(literal) => {
                    match literal {
                        ParsedLiterals::Word => {},
                        _ => {},
                    }
                },
                _ => {},
            }
        },
        _ => {},
    }
}

/// An instruction is the value of a definition just where its view is.
pub proof fn lemma_defined_view(kind: Instructions)
    ensures
        match kind {
            Instructions::ValueOf(Expressions::Defined(definable)) => kind@
                == InstructionsView::ValueOf(ExpressionsView::Defined(definable@)),
            _ => !(kind@ matches InstructionsView::ValueOf(ExpressionsView::Defined(_))),
        },
{
    match kind {
        Instructions::ValueOf(expression) => {
            match expression {
                Expressions::Defined(definable) => {},
                _ => {},
            }
        },
        _ => {},
    }
}

/// An instruction is the value of a call just where its view is.
pub proof fn lemma_call_view(kind: Instructions)
    ensures
        match kind {
            Instructions::ValueOf(Expressions::ReturnOf(call)) => kind@
                == InstructionsView::ValueOf(ExpressionsView::ReturnOf(call@)),
            _ => !(kind@ matches InstructionsView::ValueOf(ExpressionsView::ReturnOf(_))),
        },
{
    match kind {
        Instructions::ValueOf(expression) => {
            match expression {
                Expressions::ReturnOf(call) => {},
                _ => {},
            }
        },
        _ => {},
    }
}

/// The word that the branch holds, and nothing else.
pub fn word_of(branch: &Vec<Node<Instructions>>, location: &LangModuleSlice, reason: &str) -> (r:
    LangResult<Node<Word>>)
    ensures
        match grammar::word_of(
            instruction_views(branch@),
            LangErrorView::UnableToParse(location@, reason@),
        ) {
            Ok(word) => r is Ok && r->Ok_0@ == word,
            Err(error) => r is Err && r->Err_0@ == error,
        },
{
    if branch.len() != 1 {
        return Err(unable(location.duplicate(), reason));
    }
    proof {
        lemma_word_view(branch[0].kind);
    }
    if matches!(branch[0].kind, Instructions::ValueOf(Expressions::Literal(ParsedLiterals::Word))) {
        Ok(Node { kind: Word, location: branch[0].location.duplicate() })
    } else {
        Err(unexpected_node(branch[0].duplicate()))
    }
}

/// The words that the branches hold, from the branch `from` up to the branch `to`: one
/// each.
pub(crate) fn words_of(
    branches: &Vec<Vec<Node<Instructions>>>,
    from: usize,
    to: usize,
    location: &LangModuleSlice,
    reason: &str,
) -> (r: LangResult<Vec<Node<Word>>>)
    requires
        to <= branches.len(),
    ensures
        match grammar::words_of(
            branch_views(branches@),
            from as int,
            to as int,
            Seq::empty(),
            LangErrorView::UnableToParse(location@, reason@),
        ) {
            Ok(words) => r is Ok && word_views(r->Ok_0@) == words,
            Err(error) => r is Err && r->Err_0@ == error,
        },
{
    let ghost failure = LangErrorView::UnableToParse(location@, reason@);
    let mut found: Vec<Node<Word>> = Vec::new();
    let mut at: usize = from;
    assert(word_views(found@) =~= Seq::empty());
    while at < to
        invariant
            from <= at,
            to <= branches.len(),
            failure == LangErrorView::UnableToParse(location@, reason@),
            grammar::words_of(branch_views(branches@), from as int, to as int, Seq::empty(), failure)
                == grammar::words_of(
                branch_views(branches@),
                at as int,
                to as int,
                word_views(found@),
                failure,
            ),
        decreases to - at,
    {
        match word_of(&branches[at], location, reason) {
            Err(error) => {
                return Err(error);
            },
            Ok(word) => {
                proof {
                    lemma_word_views_push(found@, word);
                }
                found.push(word);
            },
        }
        at = at + 1;
    }
    Ok(found)
}

/// A rule of the grammar: what can be parsed from a token on.
pub trait Parsable {
    type ResultKind;

    /// What a node of the kind that the rule makes is, mathematically.
    type View;

    /// What the rule makes of the tokens of `source` from the token at `at` on, with the
    /// position of the token after the last one that it reads.
    spec fn rule(
        source: Source,
        at: int,
        behaviors: BehaviorSet,
        previous: Option<Instruction>,
    ) -> Parsed<NodeView<Self::View>>;

    /// The view of a node that the rule makes.
    spec fn shown(node: Node<Self::ResultKind>) -> NodeView<Self::View>;

    /// Parse what begins at the token at `at` as the object, under the behaviors
    /// `behaviors`.
    ///
    /// `previous` is the previous just parsed node, if there is one.
    ///
    /// Gives the node, with the position of the token after the last one that was read.
    fn parse_from(
        parser: &Parser,
        at: usize,
        behaviors: BehaviorSet,
        previous: Option<Node<Instructions>>,
    ) -> (r: LangResult<(Node<Self::ResultKind>, usize)>)
        ensures
            match Self::rule(parser@.source(), at as int, behaviors, previous_view(previous)) {
                Ok((found, end)) => r is Ok && Self::shown(r->Ok_0.0) == found && r->Ok_0.1
                    == end && at < end <= parser@.tokens.len(),
                Err(error) => r is Err && r->Err_0@ == error,
            },
    ;
}

impl Parsable for Instructions {
    type ResultKind = Instructions;

    type View = InstructionsView;

    open spec fn rule(
        source: Source,
        at: int,
        behaviors: BehaviorSet,
        previous: Option<Instruction>,
    ) -> Parsed<NodeView<InstructionsView>> {
        instruction_rule(source, at, behaviors, previous)
    }

    open spec fn shown(node: Node<Instructions>) -> NodeView<InstructionsView> {
        node@
    }

    fn parse_from(
        parser: &Parser,
        at: usize,
        behaviors: BehaviorSet,
        previous: Option<Node<Instructions>>,
    ) -> (r: LangResult<(Node<Instructions>, usize)>) {
        Instructions::parse(parser, at, behaviors, previous)
    }
}

impl Parsable for Expressions {
    type ResultKind = Expressions;

    type View = ExpressionsView;

    open spec fn rule(
        source: Source,
        at: int,
        behaviors: BehaviorSet,
        previous: Option<Instruction>,
    ) -> Parsed<NodeView<ExpressionsView>> {
        expression_rule(source, at, behaviors, previous)
    }

    open spec fn shown(node: Node<Expressions>) -> NodeView<ExpressionsView> {
        node@
    }

    fn parse_from(
        parser: &Parser,
        at: usize,
        behaviors: BehaviorSet,
        previous: Option<Node<Instructions>>,
    ) -> (r: LangResult<(Node<Expressions>, usize)>) {
        Expressions::parse(parser, at, behaviors, previous)
    }
}

impl Parsable for ParsedLiterals {
    type ResultKind = ParsedLiterals;

    type View = ParsedLiteralsView;

    open spec fn rule(
        source: Source,
        at: int,
        behaviors: BehaviorSet,
        previous: Option<Instruction>,
    ) -> Parsed<NodeView<ParsedLiteralsView>> {
        literal_rule(source, at, previous)
    }

    open spec fn shown(node: Node<ParsedLiterals>) -> NodeView<ParsedLiteralsView> {
        node@
    }

    fn parse_from(
        parser: &Parser,
        at: usize,
        behaviors: BehaviorSet,
        previous: Option<Node<Instructions>>,
    ) -> (r: LangResult<(Node<ParsedLiterals>, usize)>) {
        ParsedLiterals::parse(parser, at, previous)
    }
}

impl Parsable for Definables {
    type ResultKind = Definables;

    type View = DefinablesView;

    open spec fn rule(
        source: Source,
        at: int,
        behaviors: BehaviorSet,
        previous: Option<Instruction>,
    ) -> Parsed<NodeView<DefinablesView>> {
        definable_rule(source, at, behaviors, previous)
    }

    open spec fn shown(node: Node<Definables>) -> NodeView<DefinablesView> {
        node@
    }

    fn parse_from(
        parser: &Parser,
        at: usize,
        behaviors: BehaviorSet,
        previous: Option<Node<Instructions>>,
    ) -> (r: LangResult<(Node<Definables>, usize)>) {
        Definables::parse(parser, at, behaviors, previous)
    }
}

impl Parsable for DefineVariable {
    type ResultKind = DefineVariable;

    type View = DefineVariableView;

    open spec fn rule(
        source: Source,
        at: int,
        behaviors: BehaviorSet,
        previous: Option<Instruction>,
    ) -> Parsed<NodeView<DefineVariableView>> {
        variable_rule(source, at, behaviors, previous)
    }

    open spec fn shown(node: Node<DefineVariable>) -> NodeView<DefineVariableView> {
        node@
    }

    fn parse_from(
        parser: &Parser,
        at: usize,
        behaviors: BehaviorSet,
        previous: Option<Node<Instructions>>,
    ) -> (r: LangResult<(Node<DefineVariable>, usize)>) {
        DefineVariable::parse(parser, at, behaviors, previous)
    }
}

impl Parsable for DefineFunction {
    type ResultKind = DefineFunction;

    type View = DefineFunctionView;

    open spec fn rule(
        source: Source,
        at: int,
        behaviors: BehaviorSet,
        previous: Option<Instruction>,
    ) -> Parsed<NodeView<DefineFunctionView>> {
        function_rule(source, at, previous)
    }

    open spec fn shown(node: Node<DefineFunction>) -> NodeView<DefineFunctionView> {
        node@
    }

    fn parse_from(
        parser: &Parser,
        at: usize,
        behaviors: BehaviorSet,
        previous: Option<Node<Instructions>>,
    ) -> (r: LangResult<(Node<DefineFunction>, usize)>) {
        DefineFunction::parse(parser, at, previous)
    }
}

impl Parsable for DefineClass {
    type ResultKind = DefineClass;

    type View = DefineClassView;

    open spec fn rule(
        source: Source,
        at: int,
        behaviors: BehaviorSet,
        previous: Option<Instruction>,
    ) -> Parsed<NodeView<DefineClassView>> {
        class_rule(source, at, previous)
    }

    open spec fn shown(node: Node<DefineClass>) -> NodeView<DefineClassView> {
        node@
    }

    fn parse_from(
        parser: &Parser,
        at: usize,
        behaviors: BehaviorSet,
        previous: Option<Node<Instructions>>,
    ) -> (r: LangResult<(Node<DefineClass>, usize)>) {
        DefineClass::parse(parser, at, previous)
    }
}

impl Parsable for Call {
    type ResultKind = Call;

    type View = CallView;

    open spec fn rule(
        source: Source,
        at: int,
        behaviors: BehaviorSet,
        previous: Option<Instruction>,
    ) -> Parsed<NodeView<CallView>> {
        call_rule(source, at, previous)
    }

    open spec fn shown(node: Node<Call>) -> NodeView<CallView> {
        node@
    }

    fn parse_from(
        parser: &Parser,
        at: usize,
        behaviors: BehaviorSet,
        previous: Option<Node<Instructions>>,
    ) -> (r: LangResult<(Node<Call>, usize)>) {
        Call::parse(parser, at, previous)
    }
}

impl Parsable for ReadProperty {
    type ResultKind = ReadProperty;

    type View = ReadPropertyView;

    open spec fn rule(
        source: Source,
        at: int,
        behaviors: BehaviorSet,
        previous: Option<Instruction>,
    ) -> Parsed<NodeView<ReadPropertyView>> {
        property_rule(source, at, behaviors, previous)
    }

    open spec fn shown(node: Node<ReadProperty>) -> NodeView<ReadPropertyView> {
        node@
    }

    fn parse_from(
        parser: &Parser,
        at: usize,
        behaviors: BehaviorSet,
        previous: Option<Node<Instructions>>,
    ) -> (r: LangResult<(Node<ReadProperty>, usize)>) {
        ReadProperty::parse(parser, at, behaviors, previous)
    }
}

impl Parsable for ClassInstanciation {
    type ResultKind = ClassInstanciation;

    type View = ClassInstanciationView;

    open spec fn rule(
        source: Source,
        at: int,
        behaviors: BehaviorSet,
        previous: Option<Instruction>,
    ) -> Parsed<NodeView<ClassInstanciationView>> {
        instanciate_rule(source, at, behaviors, previous)
    }

    open spec fn shown(node: Node<ClassInstanciation>) -> NodeView<ClassInstanciationView> {
        node@
    }

    fn parse_from(
        parser: &Parser,
        at: usize,
        behaviors: BehaviorSet,
        previous: Option<Node<Instructions>>,
    ) -> (r: LangResult<(Node<ClassInstanciation>, usize)>) {
        ClassInstanciation::parse(parser, at, behaviors, previous)
    }
}

impl Parsable for PrimaryObject {
    type ResultKind = PrimaryObject;

    type View = PrimaryObjectView;

    open spec fn rule(
        source: Source,
        at: int,
        behaviors: BehaviorSet,
        previous: Option<Instruction>,
    ) -> Parsed<NodeView<PrimaryObjectView>> {
        object_rule(source, at, previous)
    }

    open spec fn shown(node: Node<PrimaryObject>) -> NodeView<PrimaryObjectView> {
        node@
    }

    fn parse_from(
        parser: &Parser,
        at: usize,
        behaviors: BehaviorSet,
        previous: Option<Node<Instructions>>,
    ) -> (r: LangResult<(Node<PrimaryObject>, usize)>) {
        PrimaryObject::parse(parser, at, previous)
    }
}

impl Parsable for ModifiedDefinable {
    type ResultKind = ModifiedDefinable;

    type View = ModifiedDefinableView;

    open spec fn rule(
        source: Source,
        at: int,
        behaviors: BehaviorSet,
        previous: Option<Instruction>,
    ) -> Parsed<NodeView<ModifiedDefinableView>> {
        modified_rule(source, at, behaviors, previous)
    }

    open spec fn shown(node: Node<ModifiedDefinable>) -> NodeView<ModifiedDefinableView> {
        node@
    }

    fn parse_from(
        parser: &Parser,
        at: usize,
        behaviors: BehaviorSet,
        previous: Option<Node<Instructions>>,
    ) -> (r: LangResult<(Node<ModifiedDefinable>, usize)>) {
        ModifiedDefinable::parse(parser, at, behaviors, previous)
    }
}

impl Parsable for If {
    type ResultKind = IfResult;

    type View = IfResultView;

    open spec fn rule(
        source: Source,
        at: int,
        behaviors: BehaviorSet,
        previous: Option<Instruction>,
    ) -> Parsed<NodeView<IfResultView>> {
        if_rule(source, at, behaviors, previous)
    }

    open spec fn shown(node: Node<IfResult>) -> NodeView<IfResultView> {
        node@
    }

    fn parse_from(
        parser: &Parser,
        at: usize,
        behaviors: BehaviorSet,
        previous: Option<Node<Instructions>>,
    ) -> (r: LangResult<(Node<IfResult>, usize)>) {
        If::parse(parser, at, behaviors, previous)
    }
}

impl Parsable for Loop {
    type ResultKind = Loop;

    type View = LoopView;

    open spec fn rule(
        source: Source,
        at: int,
        behaviors: BehaviorSet,
        previous: Option<Instruction>,
    ) -> Parsed<NodeView<LoopView>> {
        loop_rule(source, at, previous)
    }

    open spec fn shown(node: Node<Loop>) -> NodeView<LoopView> {
        node@
    }

    fn parse_from(
        parser: &Parser,
        at: usize,
        behaviors: BehaviorSet,
        previous: Option<Node<Instructions>>,
    ) -> (r: LangResult<(Node<Loop>, usize)>) {
        Loop::parse(parser, at, previous)
    }
}

impl Parsable for Break {
    type ResultKind = Break;

    type View = BreakView;

    open spec fn rule(
        source: Source,
        at: int,
        behaviors: BehaviorSet,
        previous: Option<Instruction>,
    ) -> Parsed<NodeView<BreakView>> {
        break_rule(source, at, behaviors, previous)
    }

    open spec fn shown(node: Node<Break>) -> NodeView<BreakView> {
        node@
    }

    fn parse_from(
        parser: &Parser,
        at: usize,
        behaviors: BehaviorSet,
        previous: Option<Node<Instructions>>,
    ) -> (r: LangResult<(Node<Break>, usize)>) {
        Break::parse(parser, at, behaviors, previous)
    }
}

impl Parsable for Package {
    type ResultKind = Package;

    type View = PackageView;

    open spec fn rule(
        source: Source,
        at: int,
        behaviors: BehaviorSet,
        previous: Option<Instruction>,
    ) -> Parsed<NodeView<PackageView>> {
        use_rule(source, at, previous)
    }

    open spec fn shown(node: Node<Package>) -> NodeView<PackageView> {
        node@
    }

    fn parse_from(
        parser: &Parser,
        at: usize,
        behaviors: BehaviorSet,
        previous: Option<Node<Instructions>>,
    ) -> (r: LangResult<(Node<Package>, usize)>) {
        Package::parse(parser, at, previous)
    }
}

impl Parsable for Operations {
    type ResultKind = Operations;

    type View = OperationsView;

    open spec fn rule(
        source: Source,
        at: int,
        behaviors: BehaviorSet,
        previous: Option<Instruction>,
    ) -> Parsed<NodeView<OperationsView>> {
        operation_rule(source, at, behaviors, previous)
    }

    open spec fn shown(node: Node<Operations>) -> NodeView<OperationsView> {
        node@
    }

    fn parse_from(
        parser: &Parser,
        at: usize,
        behaviors: BehaviorSet,
        previous: Option<Node<Instructions>>,
    ) -> (r: LangResult<(Node<Operations>, usize)>) {
        Operations::parse(parser, at, behaviors, previous)
    }
}

impl Parsable for IfFallBack {
    type ResultKind = IfFallBack;

    type View = IfFallBackView;

    open spec fn rule(
        source: Source,
        at: int,
        behaviors: BehaviorSet,
        previous: Option<Instruction>,
    ) -> Parsed<NodeView<IfFallBackView>> {
        fallback_rule(source, at, behaviors)
    }

    open spec fn shown(node: Node<IfFallBack>) -> NodeView<IfFallBackView> {
        node@
    }

    fn parse_from(
        parser: &Parser,
        at: usize,
        behaviors: BehaviorSet,
        previous: Option<Node<Instructions>>,
    ) -> (r: LangResult<(Node<IfFallBack>, usize)>) {
        IfFallBack::parse(parser, at, behaviors)
    }
}

impl Parsable for ScopeTarget {
    type ResultKind = ScopeTarget;

    type View = ScopeTargetView;

    /// The scope target that the token at `at` is.
    open spec fn rule(
        source: Source,
        at: int,
        behaviors: BehaviorSet,
        previous: Option<Instruction>,
    ) -> Parsed<NodeView<ScopeTargetView>> {
        if !source.has(at) {
            Err(expected(source.tail(), "a scope target"@, None))
        } else {
            match source.tokens[at].kind {
                TokensView::ScopeTarget(target) => Ok(
                    (NodeView { kind: target, location: source.tokens[at].location }, at + 1),
                ),
                _ => Err(LangErrorView::UnexpectedToken(source.tokens[at])),
            }
        }
    }

    open spec fn shown(node: Node<ScopeTarget>) -> NodeView<ScopeTargetView> {
        node@
    }

    fn parse_from(
        parser: &Parser,
        at: usize,
        behaviors: BehaviorSet,
        previous: Option<Node<Instructions>>,
    ) -> (r: LangResult<(Node<ScopeTarget>, usize)>) {
        if at >= parser.len() {
            return Err(missing(parser.tail(), "a scope target", None));
        }
        match ScopeTarget::parse(parser, at) {
            Ok(found) => Ok((found, at + 1)),
            Err(error) => Err(error),
        }
    }
}

} // verus!
