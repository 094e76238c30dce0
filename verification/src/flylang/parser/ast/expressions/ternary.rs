use crate::flylang::module::slice::SliceView;
use crate::flylang::parser::ast::{Node, NodeView};
use crate::flylang::parser::ast::expressions::{Expressions, ExpressionsView};
use vstd::prelude::*;

verus! {

/// One of two values, by a condition.
// Note: the ternary expressions are parsed in the conditionnal instruction.
#[derive(Debug)]
pub struct Ternary {
    pub condition: Box<Node<Expressions>>,
    pub yes: Box<Node<Expressions>>,
    pub no: Box<Node<Expressions>>,
}

/// What a `Ternary` is, mathematically.
pub struct TernaryView {
    pub condition: Box<NodeView<ExpressionsView>>,
    pub yes: Box<NodeView<ExpressionsView>>,
    pub no: Box<NodeView<ExpressionsView>>,
}

impl Ternary {
    pub open spec fn view(self) -> TernaryView
        decreases self,
    {
        TernaryView {
            condition: Box::new((*self.condition)@),
            yes: Box::new((*self.yes)@),
            no: Box::new((*self.no)@),
        }
    }

    /// An independent copy.
    pub fn duplicate(&self) -> (r: Self)
        ensures
            r@ == self@,
        decreases self,
    {
        Ternary {
            condition: Box::new(self.condition.duplicate()),
            yes: Box::new(self.yes.duplicate()),
            no: Box::new(self.no.duplicate()),
        }
    }
}

impl TernaryView {
    /// Whether every part lies inside `outer`, the slice of the node that holds this, and
    /// is itself tidy.
    pub open spec fn tidy(self, outer: SliceView) -> bool
        decreases self,
    {
        &&& outer.holds(self.condition.location) && self.condition.kind.tidy(self.condition.location)
        &&& outer.holds(self.yes.location) && self.yes.kind.tidy(self.yes.location)
        &&& outer.holds(self.no.location) && self.no.kind.tidy(self.no.location)
    }
}


} // verus!
