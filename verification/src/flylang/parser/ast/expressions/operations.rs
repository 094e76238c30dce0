use crate::flylang::errors::LangResult;
use crate::flylang::lexer::tokens::{BinaryOperator, Comparison, Operator, Token, Tokens, TokenView};
use crate::flylang::module::slice::SliceView;
use crate::flylang::parser::{missing, Parser, previous_view, unexpected_node};
use crate::flylang::parser::ast::{Node, NodeView};
use crate::flylang::parser::ast::expressions::{Expressions, ExpressionsView};
use crate::flylang::parser::ast::instructions::Instructions;
use crate::flylang::parser::ast::instructions::conditionnal::If;
use crate::flylang::parser::grammar::{
    binary_rank, binds_tighter, expression_rule, operation_rule, reorder,
};
use crate::flylang::parser::mods::BehaviorSet;
use vstd::prelude::*;

verus! {

/// An operator between two operands.
#[derive(Debug)]
pub struct Operation<Op> {
    pub operator: Token<Op>,
    pub operands: (Box<Node<Expressions>>, Box<Node<Expressions>>),
}

/// What an `Operation` is, mathematically.
pub struct OperationView<Op> {
    pub operator: TokenView<Op>,
    pub operands: (Box<NodeView<ExpressionsView>>, Box<NodeView<ExpressionsView>>),
}

impl<Op: Copy> Operation<Op> {
    pub open spec fn view(self) -> OperationView<Op>
        decreases self,
    {
        OperationView {
            operator: TokenView { kind: self.operator.kind, location: self.operator.location@ },
            operands: (Box::new((*self.operands.0)@), Box::new((*self.operands.1)@)),
        }
    }

    /// An independent copy.
    pub fn duplicate(&self) -> (r: Self)
        ensures
            r@ == self@,
        decreases self,
    {
        Operation {
            operator: Token { kind: self.operator.kind, location: self.operator.location.duplicate() },
            operands: (Box::new(self.operands.0.duplicate()), Box::new(self.operands.1.duplicate())),
        }
    }
}

impl<Op> OperationView<Op> {
    /// Whether every part lies inside `outer`, the slice of the node that holds this, and
    /// is itself tidy.
    pub open spec fn tidy(self, outer: SliceView) -> bool
        decreases self,
    {
        &&& outer.holds(self.operator.location)
        &&& outer.holds(self.operands.0.location) && self.operands.0.kind.tidy(self.operands.0.location)
            && outer.holds(self.operands.1.location) && self.operands.1.kind.tidy(self.operands.1.location)
    }
}

/// An operation, by the family of its operator.
#[derive(Debug)]
pub enum Operations {
    Numeric(Operation<Operator>),
    Binary(Operation<BinaryOperator>),
    Comparative(Operation<Comparison>),
}

/// What an `Operations` is, mathematically.
pub enum OperationsView {
    Numeric(OperationView<Operator>),
    Binary(OperationView<BinaryOperator>),
    Comparative(OperationView<Comparison>),
}

impl Operations {
    pub open spec fn view(self) -> OperationsView
        decreases self,
    {
        match self {
            Operations::Numeric(inner) => OperationsView::Numeric(inner@),
            Operations::Binary(inner) => OperationsView::Binary(inner@),
            Operations::Comparative(inner) => OperationsView::Comparative(inner@),
        }
    }

    /// An independent copy.
    pub fn duplicate(&self) -> (r: Self)
        ensures
            r@ == self@,
        decreases self,
    {
        match self {
            Operations::Numeric(inner) => Operations::Numeric(inner.duplicate()),
            Operations::Binary(inner) => Operations::Binary(inner.duplicate()),
            Operations::Comparative(inner) => Operations::Comparative(inner.duplicate()),
        }
    }
}

impl OperationsView {
    /// Whether every part lies inside `outer`, the slice of the node that holds this, and
    /// is itself tidy.
    pub open spec fn tidy(self, outer: SliceView) -> bool
        decreases self,
    {
        match self {
            OperationsView::Numeric(inner) => inner.tidy(outer),
            OperationsView::Binary(inner) => inner.tidy(outer),
            OperationsView::Comparative(inner) => inner.tidy(outer),
        }
    }
}

impl Node<Operations> {
    pub open spec fn view(self) -> NodeView<OperationsView>
        decreases self,
    {
        NodeView { kind: self.kind@, location: self.location@ }
    }

    /// An independent copy.
    pub fn duplicate(&self) -> (r: Self)
        ensures
            r@ == self@,
        decreases self,
    {
        Node { kind: self.kind.duplicate(), location: self.location.duplicate() }
    }
}

/// The place of a binary operator in its declaration.
pub fn rank_of(operator: BinaryOperator) -> (r: u8)
    ensures
        r == binary_rank(operator),
{
    match operator {
        BinaryOperator::And => 0,
        BinaryOperator::Xor => 1,
        BinaryOperator::Or => 2,
    }
}

/// Whether an operator of kind `next` binds tighter than the one of kind `current` that
/// stands before it.
pub fn takes_over(next: &Tokens, current: &Tokens) -> (r: bool)
    ensures
        r == binds_tighter(next@, current@),
{
    match next {
        Tokens::Operator(operator) => !matches!(operator, Operator::Add | Operator::Substract)
            && matches!(current, Tokens::Operator(Operator::Add | Operator::Substract)),
        Tokens::Comparison(_) => !matches!(current, Tokens::Operator(_) | Tokens::Comparison(_)),
        Tokens::BinaryOperator(after) => match current {
            Tokens::BinaryOperator(before) => rank_of(*before) < rank_of(*after),
            _ => false,
        },
        _ => false,
    }
}

impl Operations {
    /// The right operand of the operator at `operator`, once `right` is read and the next
    /// token is the one at `at`.
    pub(crate) fn reorder(
        parser: &Parser,
        at: usize,
        behaviors: BehaviorSet,
        operator: usize,
        right: Node<Expressions>,
    ) -> (r: LangResult<(Node<Expressions>, usize)>)
        requires
            operator < at <= parser@.tokens.len(),
        ensures
            match reorder(
                parser@.source(),
                at as int,
                behaviors,
                parser@.tokens[operator as int].kind,
                right@,
            ) {
                Ok((found, end)) => r is Ok && r->Ok_0.0@ == found && r->Ok_0.1 == end && at
                    <= end <= parser@.tokens.len(),
                Err(error) => r is Err && r->Err_0@ == error,
            },
        decreases parser@.tokens, parser@.tokens.len() - at, 11int,
    {
        let ghost source = parser@.source();
        let ghost current = source.tokens[operator as int].kind;
        let ghost first = right@;
        let len = parser.len();
        let mut cursor = at;
        let mut operand = right;
        let mut lazily = behaviors;
        lazily.lazy = true;
        loop
            invariant
                source == parser@.source(),
                len == source.tokens.len(),
                operator < at <= cursor <= len,
                current == source.tokens[operator as int].kind,
                lazily == (BehaviorSet { lazy: true, ..behaviors }),
                first == right@,
                reorder(source, at as int, behaviors, current, first) == reorder(
                    source,
                    cursor as int,
                    behaviors,
                    current,
                    operand@,
                ),
            decreases len - cursor,
        {
            proof {
                reveal(reorder);
                reveal(expression_rule);
            }
            if cursor >= len {
                return Ok((operand, cursor));
            }
            // If the next token is stronger that the current one, we parse the next one first
            let next = parser.token(cursor);
            // Handle the case "!<", "!&", ...
            let coming = if matches!(next.kind, Tokens::Not) {
                if cursor + 1 >= len {
                    return Err(parser.unexpected(cursor));
                }
                parser.token(cursor + 1)
            } else {
                next
            };
            if !takes_over(&coming.kind, &parser.token(operator).kind) {
                return Ok((operand, cursor));
            }
            match Expressions::parse(parser, cursor, lazily, Some(operand.into_instruction())) {
                Err(error) => {
                    return Err(error);
                },
                Ok((found, end)) => {
                    operand = found;
                    cursor = end;
                },
            }
        }
    }

    /// The operation of the operator at `at`, whose left operand is `previous`.
    pub fn parse(
        parser: &Parser,
        at: usize,
        behaviors: BehaviorSet,
        previous: Option<Node<Instructions>>,
    ) -> (r: LangResult<(Node<Operations>, usize)>)
        ensures
            match operation_rule(parser@.source(), at as int, behaviors, previous_view(previous)) {
                Ok((found, end)) => r is Ok && r->Ok_0.0@ == found && r->Ok_0.1 == end
                    && parser@.source().forward(at as int, end),
                Err(error) => r is Err && r->Err_0@ == error,
            },
        decreases parser@.tokens, parser@.tokens.len() - at, 5int,
    {
        proof {
            reveal(operation_rule);
            reveal(expression_rule);
            reveal(reorder);
        }
        if at >= parser.len() {
            return Err(missing(parser.tail(), "an operator", None));
        }
        if !matches!(
            parser.token(at).kind,
            Tokens::Operator(_) | Tokens::Comparison(_) | Tokens::BinaryOperator(_)
        ) {
            return Err(parser.unexpected(at));
        }
        let left = match previous {
            None => {
                return Err(parser.unexpected(at));
            },
            Some(left) => left,
        };
        let len = parser.len();
        if at + 1 >= len {
            return Err(parser.unexpected(at));
        }
        let mut lazily = behaviors;
        lazily.lazy = true;
        let (first, after) = match Expressions::parse(parser, at + 1, lazily, None) {
            Err(error) => {
                return Err(error);
            },
            Ok(found) => found,
        };
        let expression = match left.kind {
            Instructions::ValueOf(expression) => expression,
            _ => {
                return Err(unexpected_node(left));
            },
        };
        // What follows may bind tighter, and then takes the right operand first
        let (right, end) = match Self::reorder(parser, after, behaviors, at, first) {
            Err(error) => {
                return Err(error);
            },
            Ok(found) => found,
        };
        let location = left.location.join(&right.location);
        let token = parser.token(at);
        let first = Node { kind: expression, location: left.location };
        let ghost sides = (Box::new(first@), Box::new(right@));
        let operands = (Box::new(first), Box::new(right));
        let kind = match &token.kind {
            Tokens::Operator(kind) => {
                let operation = Operation {
                    operator: Token { kind: *kind, location: token.location.duplicate() },
                    operands,
                };
                assert(operation@ == (OperationView {
                    operator: TokenView { kind: *kind, location: token.location@ },
                    operands: sides,
                }));
                Operations::Numeric(operation)
            },
            Tokens::Comparison(kind) => {
                let operation = Operation {
                    operator: Token { kind: *kind, location: token.location.duplicate() },
                    operands,
                };
                assert(operation@ == (OperationView {
                    operator: TokenView { kind: *kind, location: token.location@ },
                    operands: sides,
                }));
                Operations::Comparative(operation)
            },
            Tokens::BinaryOperator(kind) => {
                let operation = Operation {
                    operator: Token { kind: *kind, location: token.location.duplicate() },
                    operands,
                };
                assert(operation@ == (OperationView {
                    operator: TokenView { kind: *kind, location: token.location@ },
                    operands: sides,
                }));
                Operations::Binary(operation)
            },
            _ => {
                return Err(parser.unexpected(at));
            },
        };
        Ok((Node { kind, location }, end))
    }
}

} // verus!
