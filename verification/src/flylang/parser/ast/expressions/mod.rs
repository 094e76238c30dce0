use crate::flylang::errors::LangResult;
use crate::flylang::lexer::tokens::{
    BinaryOperator, Comparison, Keywords, Operator, Toggleable, Tokens, TokensView,
};
use crate::flylang::module::slice::SliceView;
use crate::flylang::parser::{missing, Parser, previous_view, unexpected_node};
use crate::flylang::parser::ast::{Node, NodeView};
use crate::flylang::parser::ast::definables::{Definables, DefinablesView};
use crate::flylang::parser::ast::expressions::call::{Call, CallView};
use crate::flylang::parser::ast::expressions::instanciate::{
    ClassInstanciation, ClassInstanciationView,
};
use crate::flylang::parser::ast::expressions::literals::{ParsedLiterals, ParsedLiteralsView};
use crate::flylang::parser::ast::expressions::modified::{
    ModifiedDefinable, ModifiedDefinableView, Modifier,
};
use crate::flylang::parser::ast::expressions::objects::{
    Array, ArrayView, PrimaryObject, Structure, StructureView,
};
use crate::flylang::parser::ast::expressions::operations::{Operation, Operations, OperationsView};
use crate::flylang::parser::ast::expressions::property::{ReadProperty, ReadPropertyView};
use crate::flylang::parser::ast::expressions::reverse::{Reverse, ReverseKind, ReverseView};
use crate::flylang::parser::ast::expressions::ternary::{Ternary, TernaryView};
use crate::flylang::parser::ast::instructions::Instructions;
use crate::flylang::parser::ast::instructions::conditionnal::{If, IfResult};
use crate::flylang::parser::grammar::{
    call_rule, definable_rule, ends_expression, expression_head, expression_rule, if_rule,
    instanciate_rule, literal_rule, modified_rule, not_rule, object_rule, operation_rule,
    priority_rule, property_rule, sign_rule, value_of,
};
use crate::flylang::parser::mods::BehaviorSet;
use vstd::prelude::*;

pub mod call;
pub mod instanciate;
pub mod literals;
pub mod modified;
pub mod objects;
pub mod operations;
pub mod property;
pub mod reverse;
pub mod ternary;

verus! {

/// Everything that has a value.
#[derive(Debug)]
pub enum Expressions {
    Literal(ParsedLiterals),
    Defined(Definables),
    Read(ReadProperty),
    ReturnOf(Call),
    Reverse(Reverse),
    Operation(Operations),
    Prioritized(Box<Node<Expressions>>),
    Ternary(Ternary),
    Structure(Structure),
    Array(Array),
    Instanciate(ClassInstanciation),
    Modified(ModifiedDefinable),
}

/// What an `Expressions` is, mathematically.
pub enum ExpressionsView {
    Literal(ParsedLiteralsView),
    Defined(DefinablesView),
    Read(ReadPropertyView),
    ReturnOf(CallView),
    Reverse(ReverseView),
    Operation(OperationsView),
    Prioritized(Box<NodeView<ExpressionsView>>),
    Ternary(TernaryView),
    Structure(StructureView),
    Array(ArrayView),
    Instanciate(ClassInstanciationView),
    Modified(ModifiedDefinableView),
}

impl Expressions {
    pub open spec fn view(self) -> ExpressionsView
        decreases self,
    {
        match self {
            Expressions::Literal(inner) => ExpressionsView::Literal(inner@),
            Expressions::Defined(inner) => ExpressionsView::Defined(inner@),
            Expressions::Read(inner) => ExpressionsView::Read(inner@),
            Expressions::ReturnOf(inner) => ExpressionsView::ReturnOf(inner@),
            Expressions::Reverse(inner) => ExpressionsView::Reverse(inner@),
            Expressions::Operation(inner) => ExpressionsView::Operation(inner@),
            Expressions::Prioritized(expression) => ExpressionsView::Prioritized(Box::new((*expression)@)),
            Expressions::Ternary(inner) => ExpressionsView::Ternary(inner@),
            Expressions::Structure(inner) => ExpressionsView::Structure(inner@),
            Expressions::Array(inner) => ExpressionsView::Array(inner@),
            Expressions::Instanciate(inner) => ExpressionsView::Instanciate(inner@),
            Expressions::Modified(inner) => ExpressionsView::Modified(inner@),
        }
    }

    /// An independent copy.
    pub fn duplicate(&self) -> (r: Self)
        ensures
            r@ == self@,
        decreases self,
    {
        match self {
            Expressions::Literal(inner) => Expressions::Literal(inner.duplicate()),
            Expressions::Defined(inner) => Expressions::Defined(inner.duplicate()),
            Expressions::Read(inner) => Expressions::Read(inner.duplicate()),
            Expressions::ReturnOf(inner) => Expressions::ReturnOf(inner.duplicate()),
            Expressions::Reverse(inner) => Expressions::Reverse(inner.duplicate()),
            Expressions::Operation(inner) => Expressions::Operation(inner.duplicate()),
            Expressions::Prioritized(expression) => Expressions::Prioritized(Box::new(expression.duplicate())),
            Expressions::Ternary(inner) => Expressions::Ternary(inner.duplicate()),
            Expressions::Structure(inner) => Expressions::Structure(inner.duplicate()),
            Expressions::Array(inner) => Expressions::Array(inner.duplicate()),
            Expressions::Instanciate(inner) => Expressions::Instanciate(inner.duplicate()),
            Expressions::Modified(inner) => Expressions::Modified(inner.duplicate()),
        }
    }
}

impl ExpressionsView {
    /// Whether every part lies inside `outer`, the slice of the node that holds this, and
    /// is itself tidy.
    pub open spec fn tidy(self, outer: SliceView) -> bool
        decreases self,
    {
        match self {
            ExpressionsView::Literal(inner) => inner.tidy(outer),
            ExpressionsView::Defined(inner) => inner.tidy(outer),
            ExpressionsView::Read(inner) => inner.tidy(outer),
            ExpressionsView::ReturnOf(inner) => inner.tidy(outer),
            ExpressionsView::Reverse(inner) => inner.tidy(outer),
            ExpressionsView::Operation(inner) => inner.tidy(outer),
            ExpressionsView::Prioritized(expression) => outer.holds(expression.location) && expression.kind.tidy(expression.location)
                && outer.start < expression.location.start && expression.location.end < outer.end,
            ExpressionsView::Ternary(inner) => inner.tidy(outer),
            ExpressionsView::Structure(inner) => inner.tidy(outer),
            ExpressionsView::Array(inner) => inner.tidy(outer),
            ExpressionsView::Instanciate(inner) => inner.tidy(outer),
            ExpressionsView::Modified(inner) => inner.tidy(outer),
        }
    }
}

impl Node<Expressions> {
    pub open spec fn view(self) -> NodeView<ExpressionsView>
        decreases self,
    {
        NodeView { kind: self.kind@, location: self.location@ }
    }

    /// An independent copy.
    pub fn duplicate(&self) -> (r: Self)
        ensures
            r@ == self@,
        decreases self,
    {
        Node { kind: self.kind.duplicate(), location: self.location.duplicate() }
    }
}

/// The views of the nodes of `nodes`, in order.
pub open spec fn expression_views(nodes: Seq<Node<Expressions>>) -> Seq<NodeView<ExpressionsView>>
    decreases nodes,
{
    Seq::new(
        nodes.len(),
        |i: int|
            if 0 <= i < nodes.len() {
                nodes[i]@
            } else {
                arbitrary()
            },
    )
}

/// An independent copy of a list of nodes.
pub fn duplicate_expressions(nodes: &Vec<Node<Expressions>>) -> (r: Vec<Node<Expressions>>)
    ensures
        expression_views(r@) == expression_views(nodes@),
    decreases nodes,
{
    let mut out: Vec<Node<Expressions>> = Vec::new();
    let mut at: usize = 0;
    while at < nodes.len()
        invariant
            at <= nodes.len(),
            out@.len() == at,
            forall|i: int| 0 <= i < at ==> out@[i]@ == nodes@[i]@,
        decreases nodes.len() - at,
    {
        let copy = nodes[at].duplicate();
        out.push(copy);
        at = at + 1;
    }
    assert(expression_views(out@) =~= expression_views(nodes@));
    out
}

/// The views of a list with one more node are those of the list, then that of the node.
pub proof fn lemma_expression_views_push(nodes: Seq<Node<Expressions>>, node: Node<Expressions>)
    ensures
        expression_views(nodes.push(node)) == expression_views(nodes).push(node@),
{
    assert(expression_views(nodes.push(node)) =~= expression_views(nodes).push(node@));
}

impl Node<Expressions> {
    /// The instruction that gives the value of the expression.
    pub fn into_instruction(self) -> (r: Node<Instructions>)
        ensures
            r@ == value_of(self@),
    {
        Node { kind: Instructions::ValueOf(self.kind), location: self.location }
    }
}

/// Whether an expression ends before a token of kind `kind`, whatever the behaviors.
pub fn is_terminator(kind: &Tokens) -> (r: bool)
    ensures
        r == ends_expression(kind@),
{
    matches!(
        kind,
        Tokens::Block(Toggleable::Closing) | Tokens::Object(Toggleable::Closing)
            | Tokens::EndOfInstruction | Tokens::ArgSeparator
    )
}

/// An expression is a number just where its view is.
pub proof fn lemma_number_view(kind: Expressions)
    ensures
        (kind@ == ExpressionsView::Literal(ParsedLiteralsView::Number)) == (kind matches Expressions::Literal(
            ParsedLiterals::Number,
        )),
{
    match kind {
        Expressions::Literal(literal) => {
            match literal {
                ParsedLiterals::Number => {},
                _ => {},
            }
        },
        _ => {},
    }
}

impl Expressions {
    /// What is given priority, under any number of brackets.
    pub open spec fn plain(self) -> Expressions
        decreases self,
    {
        match self {
            Expressions::Prioritized(inner) => inner.kind.plain(),
            _ => self,
        }
    }

    /// If the expression is a prioritized expression,
    /// skip the prioritized variant (and children) to get the actual expression
    pub fn unprioritized(&self) -> (r: &Self)
        ensures
            *r == self.plain(),
        decreases self,
    {
        match self {
            Self::Prioritized(expr) => expr.kind.unprioritized(),
            _ => self,
        }
    }

    /// The expression that begins at the token at `at`, with what follows it and belongs
    /// to it.
    pub fn parse(
        parser: &Parser,
        at: usize,
        behaviors: BehaviorSet,
        previous: Option<Node<Instructions>>,
    ) -> (r: LangResult<(Node<Expressions>, usize)>)
        ensures
            match expression_rule(parser@.source(), at as int, behaviors, previous_view(previous)) {
                Ok((found, end)) => r is Ok && r->Ok_0.0@ == found && r->Ok_0.1 == end
                    && parser@.source().forward(at as int, end),
                Err(error) => r is Err && r->Err_0@ == error,
            },
        decreases parser@.tokens, parser@.tokens.len() - at, 10int,
    {
        let ghost source = parser@.source();
        let ghost first = previous_view(previous);
        let len = parser.len();
        let mut cursor = at;
        let mut before = previous;
        loop
            invariant
                source == parser@.source(),
                len == source.tokens.len(),
                at <= cursor,
                cursor <= len || cursor == at,
                first == previous_view(previous),
                expression_rule(source, at as int, behaviors, first) == expression_rule(
                    source,
                    cursor as int,
                    behaviors,
                    previous_view(before),
                ),
            decreases len - cursor,
        {
            proof {
                reveal(expression_rule);
                reveal(expression_head);
            }
            match Self::head(parser, cursor, behaviors, before) {
                Err(error) => {
                    return Err(error);
                },
                Ok((expression, end, closed)) => {
                    if closed || end >= len {
                        return Ok((expression, end));
                    }
                    let next = &parser.token(end).kind;
                    if is_terminator(next) || (behaviors.lazy && matches!(
                        next,
                        Tokens::Operator(_) | Tokens::BinaryOperator(_)
                    )) {
                        return Ok((expression, end));
                    }
                    before = Some(expression.into_instruction());
                    cursor = end;
                },
            }
        }
    }

    /// The head of the expression that begins at the token at `at`: with it, where it
    /// ends, and whether nothing may be added to it.
    pub fn head(
        parser: &Parser,
        at: usize,
        behaviors: BehaviorSet,
        previous: Option<Node<Instructions>>,
    ) -> (r: LangResult<(Node<Expressions>, usize, bool)>)
        ensures
            match expression_head(parser@.source(), at as int, behaviors, previous_view(previous)) {
                Ok(head) => r is Ok && r->Ok_0.0@ == head.expression && r->Ok_0.1 == head.end
                    && r->Ok_0.2 == head.closed && parser@.source().forward(at as int, head.end),
                Err(error) => r is Err && r->Err_0@ == error,
            },
        decreases parser@.tokens, parser@.tokens.len() - at, 9int,
    {
        proof {
            reveal(expression_head);
            reveal(literal_rule);
            reveal(definable_rule);
            reveal(if_rule);
            reveal(instanciate_rule);
            reveal(modified_rule);
            reveal(object_rule);
            reveal(not_rule);
            reveal(sign_rule);
            reveal(operation_rule);
            reveal(call_rule);
            reveal(priority_rule);
            reveal(property_rule);
        }
        if at >= parser.len() {
            return Err(missing(parser.tail(), "an expression", None));
        }
        let token = parser.token(at);
        match &token.kind {
            Tokens::Literal(_) => match ParsedLiterals::parse(parser, at, previous) {
                Err(error) => Err(error),
                Ok((found, end)) => Ok(
                    (
                        Node { kind: Expressions::Literal(found.kind), location: found.location },
                        end,
                        false,
                    ),
                ),
            },
            Tokens::VarDef(_) | Tokens::Keyword(Keywords::Fn) | Tokens::Keyword(Keywords::Cs) => {
                match Definables::parse(parser, at, behaviors, previous) {
                    Err(error) => Err(error),
                    Ok((found, end)) => Ok(
                        (
                            Node {
                                kind: Expressions::Defined(found.kind),
                                location: found.location,
                            },
                            end,
                            false,
                        ),
                    ),
                }
            },
            Tokens::Keyword(Keywords::If) => {
                // The ternary expressions is parsed in the same code as a if block
                let mut behaviors = behaviors;
                behaviors.lazy = true;
                match If::parse(parser, at, behaviors, previous) {
                    Err(error) => Err(error),
                    Ok((found, end)) => match found.kind {
                        IfResult::Ternary(ternary) => Ok(
                            (
                                Node {
                                    kind: Expressions::Ternary(ternary),
                                    location: found.location,
                                },
                                end,
                                false,
                            ),
                        ),
                        IfResult::If(condition) => Err(
                            unexpected_node(
                                Node {
                                    kind: Instructions::If(condition),
                                    location: found.location,
                                },
                            ),
                        ),
                    },
                }
            },
            Tokens::Keyword(Keywords::New) => {
                match ClassInstanciation::parse(parser, at, behaviors, previous) {
                    Err(error) => Err(error),
                    Ok((found, end)) => Ok(
                        (
                            Node {
                                kind: Expressions::Instanciate(found.kind),
                                location: found.location,
                            },
                            end,
                            false,
                        ),
                    ),
                }
            },
            Tokens::Modifier => {
                match ModifiedDefinable::parse(parser, at, behaviors, previous) {
                    Err(error) => Err(error),
                    Ok((found, end)) => Ok(
                        (
                            Node {
                                kind: Expressions::Modified(found.kind),
                                location: found.location,
                            },
                            end,
                            false,
                        ),
                    ),
                }
            },
            Tokens::Object(Toggleable::Openning) => {
                match PrimaryObject::parse(parser, at, previous) {
                    Err(error) => Err(error),
                    Ok((found, end)) => Ok(
                        (
                            Node {
                                kind: match found.kind {
                                    PrimaryObject::Arr(array) => Expressions::Array(array),
                                    PrimaryObject::Struct(structure) => Expressions::Structure(
                                        structure,
                                    ),
                                },
                                location: found.location,
                            },
                            end,
                            false,
                        ),
                    ),
                }
            },
            Tokens::Not => Self::not(parser, at, behaviors, previous),
            Tokens::Operator(_) | Tokens::BinaryOperator(_) | Tokens::Comparison(_) => {
                if previous.is_none() && matches!(token.kind, Tokens::Operator(Operator::Substract)) {
                    // Handle the case "-xxxx" which invert the sign
                    Self::sign(parser, at, behaviors)
                } else {
                    match Operations::parse(parser, at, behaviors, previous) {
                        Err(error) => Err(error),
                        Ok((found, end)) => Ok(
                            (
                                Node {
                                    kind: Expressions::Operation(found.kind),
                                    location: found.location,
                                },
                                end,
                                false,
                            ),
                        ),
                    }
                }
            },
            Tokens::Block(Toggleable::Openning) => {
                if previous.is_some() {
                    // Function call
                    match Call::parse(parser, at, previous) {
                        Err(error) => Err(error),
                        Ok((found, end)) => Ok(
                            (
                                Node {
                                    kind: Expressions::ReturnOf(found.kind),
                                    location: found.location,
                                },
                                end,
                                false,
                            ),
                        ),
                    }
                } else {
                    // Priority
                    Self::priority(parser, at, behaviors)
                }
            },
            Tokens::Accessor => {
                match ReadProperty::parse(parser, at, behaviors, previous) {
                    Err(error) => Err(error),
                    Ok((found, end)) => Ok(
                        (
                            Node { kind: Expressions::Read(found.kind), location: found.location },
                            end,
                            false,
                        ),
                    ),
                }
            },
            _ => Err(parser.unexpected(at)),
        }
    }

    /// `!expression` and `a !op b`, where the `!` is the token at `at`.
    fn not(
        parser: &Parser,
        at: usize,
        behaviors: BehaviorSet,
        previous: Option<Node<Instructions>>,
    ) -> (r: LangResult<(Node<Expressions>, usize, bool)>)
        requires
            at < parser@.tokens.len(),
            parser@.tokens[at as int].kind == TokensView::Not,
        ensures
            match not_rule(parser@.source(), at as int, behaviors, previous_view(previous)) {
                Ok(head) => r is Ok && r->Ok_0.0@ == head.expression && r->Ok_0.1 == head.end
                    && r->Ok_0.2 == head.closed && parser@.source().forward(at as int, head.end),
                Err(error) => r is Err && r->Err_0@ == error,
            },
        decreases parser@.tokens, parser@.tokens.len() - at, 5int,
    {
        proof {
            reveal(not_rule);
            reveal(operation_rule);
            reveal(expression_rule);
        }
        let len = parser.len();
        if at + 1 >= len {
            return Err(parser.unexpected(at));
        }
        let location = parser.location(at);
        let turned = if previous.is_some() {
            if matches!(
                parser.token(at + 1).kind,
                Tokens::Comparison(_) | Tokens::BinaryOperator(_)
            ) {
                // Cover the case "xx !< yy", "xx !& yy", ...
                match Operations::parse(parser, at + 1, behaviors, previous) {
                    Err(error) => {
                        return Err(error);
                    },
                    Ok((found, end)) => (
                        Node { kind: Expressions::Operation(found.kind), location: found.location },
                        end,
                    ),
                }
            } else {
                return Err(parser.unexpected(at));
            }
        } else {
            let mut behaviors = behaviors;
            behaviors.lazy = true;
            match Expressions::parse(parser, at + 1, behaviors, None) {
                Err(error) => {
                    return Err(error);
                },
                Ok(found) => found,
            }
        };
        let (found, end) = turned;
        let location = location.join(&found.location);
        let ghost inner = found@;
        let reverse = Reverse { kind: ReverseKind::Boolean, expression: Box::new(found) };
        assert(reverse@ == (ReverseView {
            kind: ReverseKind::Boolean,
            expression: Box::new(inner),
        }));
        Ok((Node { kind: Expressions::Reverse(reverse), location }, end, false))
    }

    /// `-expression`, where the `-` is the token at `at` and nothing stands before it.
    fn sign(parser: &Parser, at: usize, behaviors: BehaviorSet) -> (r: LangResult<
        (Node<Expressions>, usize, bool),
    >)
        requires
            at < parser@.tokens.len(),
            parser@.tokens[at as int].kind == TokensView::Operator(Operator::Substract),
        ensures
            match sign_rule(parser@.source(), at as int, behaviors) {
                Ok(head) => r is Ok && r->Ok_0.0@ == head.expression && r->Ok_0.1 == head.end
                    && r->Ok_0.2 == head.closed && parser@.source().forward(at as int, head.end),
                Err(error) => r is Err && r->Err_0@ == error,
            },
        decreases parser@.tokens, parser@.tokens.len() - at, 5int,
    {
        proof {
            reveal(sign_rule);
            reveal(expression_rule);
        }
        let len = parser.len();
        if at + 1 >= len {
            return Err(parser.unexpected(at));
        }
        let mut lazily = behaviors;
        lazily.lazy = true;
        match Expressions::parse(parser, at + 1, lazily, None) {
            Err(error) => Err(error),
            Ok((found, end)) => {
                let location = parser.location(at).join(&found.location);
                let ghost inner = found@;
                proof {
                    lemma_number_view(found.kind);
                }
                if matches!(found.kind, Expressions::Literal(ParsedLiterals::Number)) {
                    // The sign joins the number
                    Ok((Node { kind: found.kind, location }, end, false))
                } else {
                    let reverse = Reverse { kind: ReverseKind::Sign, expression: Box::new(found) };
                    assert(reverse@ == (ReverseView {
                        kind: ReverseKind::Sign,
                        expression: Box::new(inner),
                    }));
                    Ok((Node { kind: Expressions::Reverse(reverse), location }, end, false))
                }
            },
        }
    }

    /// `(expression)` and `()`, where the `(` is the token at `at` and nothing stands
    /// before it.
    fn priority(parser: &Parser, at: usize, behaviors: BehaviorSet) -> (r: LangResult<
        (Node<Expressions>, usize, bool),
    >)
        requires
            at < parser@.tokens.len(),
            parser@.tokens[at as int].kind == TokensView::Block(Toggleable::Openning),
        ensures
            match priority_rule(parser@.source(), at as int, behaviors) {
                Ok(head) => r is Ok && r->Ok_0.0@ == head.expression && r->Ok_0.1 == head.end
                    && r->Ok_0.2 == head.closed && parser@.source().forward(at as int, head.end),
                Err(error) => r is Err && r->Err_0@ == error,
            },
        decreases parser@.tokens, parser@.tokens.len() - at, 5int,
    {
        proof {
            reveal(priority_rule);
            reveal(expression_rule);
        }
        let len = parser.len();
        if at + 1 >= len {
            return Err(missing(parser.location(at), ")", None));
        }
        // Empty block in expression = Empty literal
        if matches!(parser.token(at + 1).kind, Tokens::Block(Toggleable::Closing)) {
            let kind = Expressions::Literal(ParsedLiterals::Empty);
            assert(kind@ == ExpressionsView::Literal(ParsedLiteralsView::Empty));
            return Ok(
                (
                    Node {
                        kind,
                        location: parser.location(at).join(&parser.token(at + 1).location),
                    },
                    at + 2,
                    false,
                ),
            );
        }
        let mut eagerly = behaviors;
        eagerly.lazy = false;
        match Expressions::parse(parser, at + 1, eagerly, None) {
            Err(error) => Err(error),
            Ok((found, end)) => {
                if end >= len {
                    return Err(missing(found.location, ")", None));
                }
                if !matches!(parser.token(end).kind, Tokens::Block(Toggleable::Closing)) {
                    return Err(missing(found.location, ")", parser.text(end)));
                }
                // Now the expression is the whole block, so we include the openning/closing tags in it
                let location = parser.location(at).join(&parser.token(end).location);
                // In lazy-mode, nothing is added to the priority
                Ok(
                    (
                        Node { kind: Expressions::Prioritized(Box::new(found)), location },
                        end + 1,
                        behaviors.lazy,
                    ),
                )
            },
        }
    }
}

} // verus!
