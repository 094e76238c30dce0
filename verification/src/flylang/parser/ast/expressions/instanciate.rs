use crate::flylang::errors::LangResult;
use crate::flylang::lexer::tokens::{Keywords, Tokens};
use crate::flylang::module::slice::SliceView;
use crate::flylang::parser::{missing, Parser, previous_view, unexpected_node};
use crate::flylang::parser::ast::{Node, NodeView};
use crate::flylang::parser::ast::expressions::{
    duplicate_expressions, expression_views, Expressions, ExpressionsView,
};
use crate::flylang::parser::ast::instructions::Instructions;
use crate::flylang::parser::grammar::{expression_rule, instanciate_rule};
use crate::flylang::parser::mods::BehaviorSet;
use vstd::prelude::*;

verus! {

/// The making of an object: its class, and what its constructor is given.
#[derive(Debug)]
pub struct ClassInstanciation {
    pub class: Box<Node<Expressions>>,
    pub arguments: Vec<Node<Expressions>>,
}

/// What a `ClassInstanciation` is, mathematically.
pub struct ClassInstanciationView {
    pub class: Box<NodeView<ExpressionsView>>,
    pub arguments: Seq<NodeView<ExpressionsView>>,
}

impl ClassInstanciation {
    pub open spec fn view(self) -> ClassInstanciationView
        decreases self,
    {
        ClassInstanciationView {
            class: Box::new((*self.class)@),
            arguments: expression_views(self.arguments@),
        }
    }

    /// An independent copy.
    pub fn duplicate(&self) -> (r: Self)
        ensures
            r@ == self@,
        decreases self,
    {
        ClassInstanciation {
            class: Box::new(self.class.duplicate()),
            arguments: duplicate_expressions(&self.arguments),
        }
    }
}

impl ClassInstanciationView {
    /// Whether every part lies inside `outer`, the slice of the node that holds this, and
    /// is itself tidy.
    pub open spec fn tidy(self, outer: SliceView) -> bool
        decreases self,
    {
        &&& outer.holds(self.class.location) && self.class.kind.tidy(self.class.location)
        &&& forall|i: int|
            0 <= i < self.arguments.len() ==> outer.holds((#[trigger] self.arguments[i]).location)
                && self.arguments[i].kind.tidy(self.arguments[i].location)
    }
}

impl Node<ClassInstanciation> {
    pub open spec fn view(self) -> NodeView<ClassInstanciationView>
        decreases self,
    {
        NodeView { kind: self.kind@, location: self.location@ }
    }

    /// An independent copy.
    pub fn duplicate(&self) -> (r: Self)
        ensures
            r@ == self@,
        decreases self,
    {
        Node { kind: self.kind.duplicate(), location: self.location.duplicate() }
    }
}

impl ClassInstanciation {
    /// `new call`, where `new` is the token at `at`.
    pub fn parse(
        parser: &Parser,
        at: usize,
        behaviors: BehaviorSet,
        previous: Option<Node<Instructions>>,
    ) -> (r: LangResult<(Node<ClassInstanciation>, usize)>)
        ensures
            match instanciate_rule(parser@.source(), at as int, behaviors, previous_view(previous)) {
                Ok((found, end)) => r is Ok && r->Ok_0.0@ == found && r->Ok_0.1 == end
                    && parser@.source().forward(at as int, end),
                Err(error) => r is Err && r->Err_0@ == error,
            },
        decreases parser@.tokens, parser@.tokens.len() - at, 5int,
    {
        proof {
            reveal(instanciate_rule);
            reveal(expression_rule);
        }
        if at >= parser.len() {
            return Err(missing(parser.tail(), "new", None));
        }
        if !matches!(parser.token(at).kind, Tokens::Keyword(Keywords::New)) {
            return Err(parser.unexpected(at));
        }
        if previous.is_some() {
            return Err(parser.unexpected(at));
        }
        let len = parser.len();
        if at + 1 >= len {
            return Err(missing(parser.location(at), "<class-call>", None));
        }
        let mut lazily = behaviors;
        lazily.lazy = true;
        match Expressions::parse(parser, at + 1, lazily, None) {
            Err(error) => Err(error),
            Ok((found, end)) => {
                let location = parser.location(at).join(&found.location);
                match found.kind {
                    Expressions::ReturnOf(call) => {
                        let ghost called = call@;
                        let kind = ClassInstanciation {
                            class: call.callable,
                            arguments: call.arguments,
                        };
                        assert(kind@ == (ClassInstanciationView {
                            class: called.callable,
                            arguments: called.arguments,
                        }));
                        Ok((Node { kind, location }, end))
                    },
                    kind => Err(
                        unexpected_node(
                            Node { kind: Instructions::ValueOf(kind), location: found.location },
                        ),
                    ),
                }
            },
        }
    }
}

} // verus!
