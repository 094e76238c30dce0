use crate::flylang::errors::{LangError, LangResult};
use crate::flylang::lexer::tokens::{Literals, Toggleable, Tokens};
use crate::flylang::module::slice::SliceView;
use crate::flylang::parser::{missing, Parser, previous_view, unexpected_node};
use crate::flylang::parser::ast::{Node, NodeView};
use crate::flylang::parser::ast::expressions::{Expressions, ExpressionsView};
use crate::flylang::parser::ast::expressions::literals::Word;
use crate::flylang::parser::ast::instructions::Instructions;
use crate::flylang::parser::errors::Expected;
use crate::flylang::parser::grammar::{expression_rule, property_rule};
use crate::flylang::parser::mods::BehaviorSet;
use vstd::prelude::*;

verus! {

/// What is read of a value: a named member, a numbered one, or the one an expression names.
#[derive(Debug)]
pub enum Property {
    Key,
    Index,
    Expression(Box<Node<Expressions>>),
}

/// What a `Property` is, mathematically.
pub enum PropertyView {
    Key,
    Index,
    Expression(Box<NodeView<ExpressionsView>>),
}

impl Property {
    pub open spec fn view(self) -> PropertyView
        decreases self,
    {
        match self {
            Property::Key => PropertyView::Key,
            Property::Index => PropertyView::Index,
            Property::Expression(expression) => PropertyView::Expression(Box::new((*expression)@)),
        }
    }

    /// An independent copy.
    pub fn duplicate(&self) -> (r: Self)
        ensures
            r@ == self@,
        decreases self,
    {
        match self {
            Property::Key => Property::Key,
            Property::Index => Property::Index,
            Property::Expression(expression) => Property::Expression(Box::new(expression.duplicate())),
        }
    }
}

impl PropertyView {
    /// Whether every part lies inside `outer`, the slice of the node that holds this, and
    /// is itself tidy.
    pub open spec fn tidy(self, outer: SliceView) -> bool
        decreases self,
    {
        match self {
            PropertyView::Key => true,
            PropertyView::Index => true,
            PropertyView::Expression(expression) => outer.holds(expression.location) && expression.kind.tidy(expression.location),
        }
    }
}

/// The reading of a member of a value.
#[derive(Debug)]
pub struct ReadProperty {
    pub from: Box<Node<Expressions>>,
    pub read: Node<Property>,
}

/// What a `ReadProperty` is, mathematically.
pub struct ReadPropertyView {
    pub from: Box<NodeView<ExpressionsView>>,
    pub read: NodeView<PropertyView>,
}

impl ReadProperty {
    pub open spec fn view(self) -> ReadPropertyView
        decreases self,
    {
        ReadPropertyView {
            from: Box::new((*self.from)@),
            read: self.read@,
        }
    }

    /// An independent copy.
    pub fn duplicate(&self) -> (r: Self)
        ensures
            r@ == self@,
        decreases self,
    {
        ReadProperty {
            from: Box::new(self.from.duplicate()),
            read: self.read.duplicate(),
        }
    }
}

impl ReadPropertyView {
    /// Whether every part lies inside `outer`, the slice of the node that holds this, and
    /// is itself tidy.
    pub open spec fn tidy(self, outer: SliceView) -> bool
        decreases self,
    {
        &&& outer.holds(self.from.location) && self.from.kind.tidy(self.from.location)
        &&& outer.holds(self.read.location) && self.read.kind.tidy(self.read.location)
    }
}

impl Node<Property> {
    pub open spec fn view(self) -> NodeView<PropertyView>
        decreases self,
    {
        NodeView { kind: self.kind@, location: self.location@ }
    }

    /// An independent copy.
    pub fn duplicate(&self) -> (r: Self)
        ensures
            r@ == self@,
        decreases self,
    {
        Node { kind: self.kind.duplicate(), location: self.location.duplicate() }
    }
}

impl Node<ReadProperty> {
    pub open spec fn view(self) -> NodeView<ReadPropertyView>
        decreases self,
    {
        NodeView { kind: self.kind@, location: self.location@ }
    }

    /// An independent copy.
    pub fn duplicate(&self) -> (r: Self)
        ensures
            r@ == self@,
        decreases self,
    {
        Node { kind: self.kind.duplicate(), location: self.location.duplicate() }
    }
}

impl ReadProperty {
    /// The reading of a member of what `previous` gives, which the `.` at `at` opens.
    pub fn parse(
        parser: &Parser,
        at: usize,
        behaviors: BehaviorSet,
        previous: Option<Node<Instructions>>,
    ) -> (r: LangResult<(Node<ReadProperty>, usize)>)
        ensures
            match property_rule(parser@.source(), at as int, behaviors, previous_view(previous)) {
                Ok((found, end)) => r is Ok && r->Ok_0.0@ == found && r->Ok_0.1 == end
                    && parser@.source().forward(at as int, end),
                Err(error) => r is Err && r->Err_0@ == error,
            },
        decreases parser@.tokens, parser@.tokens.len() - at, 5int,
    {
        proof {
            reveal(property_rule);
            reveal(expression_rule);
        }
        if at >= parser.len() {
            return Err(missing(parser.tail(), ".", None));
        }
        if !matches!(parser.token(at).kind, Tokens::Accessor) {
            return Err(parser.unexpected(at));
        }
        let owner = match previous {
            None => {
                return Err(parser.unexpected(at));
            },
            Some(owner) => owner,
        };
        let from = match owner.kind {
            Instructions::ValueOf(from) => from,
            _ => {
                return Err(unexpected_node(owner));
            },
        };
        if at + 1 >= parser.len() {
            return Err(
                LangError::Expected(
                    Expected { after: parser.location(at), expected: None, but_found: None },
                ),
            );
        }
        let next = parser.token(at + 1);
        let (read, end) = match &next.kind {
            Tokens::Literal(Literals::Number) => (
                Node { kind: Property::Index, location: next.location.duplicate() },
                at + 2,
            ),
            Tokens::Literal(Literals::Word)
            | Tokens::Literal(Literals::False)
            | Tokens::Literal(Literals::True) => (
                Node { kind: Property::Key, location: next.location.duplicate() },
                at + 2,
            ),
            Tokens::Block(Toggleable::Openning) => {
                let mut lazily = behaviors;
                lazily.lazy = true;
                match Expressions::parse(parser, at + 1, lazily, None) {
                    Err(error) => {
                        return Err(error);
                    },
                    Ok((found, end)) => {
                        let location = next.location.join(&found.location);
                        (Node { kind: Property::Expression(Box::new(found)), location }, end)
                    },
                }
            },
            _ => {
                return Err(parser.unexpected(at + 1));
            },
        };
        let location = owner.location.join(&read.location);
        Ok(
            (
                Node {
                    kind: ReadProperty {
                        from: Box::new(Node { kind: from, location: owner.location }),
                        read,
                    },
                    location,
                },
                end,
            ),
        )
    }
}

} // verus!
