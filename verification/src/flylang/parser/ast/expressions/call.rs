use crate::flylang::errors::LangResult;
use crate::flylang::lexer::tokens::{Toggleable, Tokens};
use crate::flylang::module::slice::SliceView;
use crate::flylang::parser::{missing, Parser, previous_view, unexpected_node};
use crate::flylang::parser::ast::{Node, NodeView};
use crate::flylang::parser::ast::expressions::{
    duplicate_expressions, expression_views, Expressions, ExpressionsView,
};
use crate::flylang::parser::ast::instructions::Instructions;
use crate::flylang::parser::ast::instructions::conditionnal::If;
use crate::flylang::parser::grammar::{call_rule, enclosed, Splitter, Stopper};
use crate::flylang::parser::mods::BehaviorSet;
use crate::flylang::parser::parsable::{expressions_of, nothing_in};
use vstd::prelude::*;

verus! {

/// A call: what is called, and with what.
#[derive(Debug)]
pub struct Call {
    pub callable: Box<Node<Expressions>>,
    pub arguments: Vec<Node<Expressions>>,
}

/// What a `Call` is, mathematically.
pub struct CallView {
    pub callable: Box<NodeView<ExpressionsView>>,
    pub arguments: Seq<NodeView<ExpressionsView>>,
}

impl Call {
    pub open spec fn view(self) -> CallView
        decreases self,
    {
        CallView {
            callable: Box::new((*self.callable)@),
            arguments: expression_views(self.arguments@),
        }
    }

    /// An independent copy.
    pub fn duplicate(&self) -> (r: Self)
        ensures
            r@ == self@,
        decreases self,
    {
        Call {
            callable: Box::new(self.callable.duplicate()),
            arguments: duplicate_expressions(&self.arguments),
        }
    }
}

impl CallView {
    /// Whether every part lies inside `outer`, the slice of the node that holds this, and
    /// is itself tidy.
    pub open spec fn tidy(self, outer: SliceView) -> bool
        decreases self,
    {
        &&& outer.holds(self.callable.location) && self.callable.kind.tidy(self.callable.location)
        &&& forall|i: int|
            0 <= i < self.arguments.len() ==> outer.holds((#[trigger] self.arguments[i]).location)
                && self.arguments[i].kind.tidy(self.arguments[i].location)
    }
}

impl Node<Call> {
    pub open spec fn view(self) -> NodeView<CallView>
        decreases self,
    {
        NodeView { kind: self.kind@, location: self.location@ }
    }

    /// An independent copy.
    pub fn duplicate(&self) -> (r: Self)
        ensures
            r@ == self@,
        decreases self,
    {
        Node { kind: self.kind.duplicate(), location: self.location.duplicate() }
    }
}

impl Call {
    /// The call that the `(` at `at` opens, of what `previous` gives.
    pub fn parse(parser: &Parser, at: usize, previous: Option<Node<Instructions>>) -> (r:
        LangResult<(Node<Call>, usize)>)
        ensures
            match call_rule(parser@.source(), at as int, previous_view(previous)) {
                Ok((found, end)) => r is Ok && r->Ok_0.0@ == found && r->Ok_0.1 == end
                    && parser@.source().forward(at as int, end),
                Err(error) => r is Err && r->Err_0@ == error,
            },
        decreases parser@.tokens, parser@.tokens.len() - at, 5int,
    {
        proof {
            reveal(call_rule);
            reveal(enclosed);
        }
        if at >= parser.len() {
            return Err(missing(parser.tail(), "(", None));
        }
        if !matches!(parser.token(at).kind, Tokens::Block(Toggleable::Openning)) {
            return Err(parser.unexpected(at));
        }
        let callable = match previous {
            None => {
                return Err(parser.unexpected(at));
            },
            Some(callable) => callable,
        };
        let called = match callable.kind {
            Instructions::ValueOf(called) => called,
            _ => {
                return Err(unexpected_node(callable));
            },
        };
        // Parsing arguments
        let (branches, close) = match parser.enclosed(
            at + 1,
            Stopper::Block,
            Splitter::ArgSeparator,
            BehaviorSet::new(),
        ) {
            Err(error) => {
                return Err(error);
            },
            Ok(found) => found,
        };
        let closer = parser.location(close);
        // If there is content (not: "()")
        let arguments = if nothing_in(&branches) {
            let nothing: Vec<Node<Expressions>> = Vec::new();
            assert(expression_views(nothing@) =~= Seq::empty());
            nothing
        } else {
            match expressions_of(
                &branches,
                &parser.location(at).join(&closer),
                "One of the argument is not a valid expression",
            ) {
                Err(error) => {
                    return Err(error);
                },
                Ok(arguments) => arguments,
            }
        };
        let location = callable.location.join(&closer);
        Ok(
            (
                Node {
                    kind: Call {
                        callable: Box::new(Node { kind: called, location: callable.location }),
                        arguments,
                    },
                    location,
                },
                close + 1,
            ),
        )
    }
}

} // verus!
