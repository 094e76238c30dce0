use crate::flylang::module::slice::SliceView;
use crate::flylang::parser::ast::{Node, NodeView};
use crate::flylang::parser::ast::expressions::{Expressions, ExpressionsView};
use crate::flylang::parser::ast::expressions::literals::ParsedLiteralsView;
use vstd::prelude::*;

verus! {

#[derive(Debug, Clone, Copy, PartialEq, Eq, Structural)]
pub enum ReverseKind {
    Sign,
    Boolean,
}

/// An expression whose sign or truth is turned over.
#[derive(Debug)]
pub struct Reverse {
    pub kind: ReverseKind,
    pub expression: Box<Node<Expressions>>,
}

/// What a `Reverse` is, mathematically.
pub struct ReverseView {
    pub kind: ReverseKind,
    pub expression: Box<NodeView<ExpressionsView>>,
}

impl Reverse {
    pub open spec fn view(self) -> ReverseView
        decreases self,
    {
        ReverseView {
            kind: self.kind,
            expression: Box::new((*self.expression)@),
        }
    }

    /// An independent copy.
    pub fn duplicate(&self) -> (r: Self)
        ensures
            r@ == self@,
        decreases self,
    {
        Reverse {
            kind: self.kind,
            expression: Box::new(self.expression.duplicate()),
        }
    }
}

impl ReverseView {
    /// Whether every part lies inside `outer`, the slice of the node that holds this, and
    /// is itself tidy.
    /// The sign of a number is never turned over: it is part of the number.
    pub open spec fn tidy(self, outer: SliceView) -> bool
        decreases self,
    {
        &&& outer.holds(self.expression.location) && self.expression.kind.tidy(self.expression.location)
        &&& !(self.kind == ReverseKind::Sign && self.expression.kind == ExpressionsView::Literal(
            ParsedLiteralsView::Number,
        ))
    }
}


} // verus!
