use crate::flylang::errors::LangResult;
use crate::flylang::lexer::tokens::{Keywords, Tokens};
use crate::flylang::module::slice::SliceView;
use crate::flylang::parser::{missing, Parser, previous_view};
use crate::flylang::parser::ast::{Node, NodeView};
use crate::flylang::parser::ast::definables::class::{DefineClass, DefineClassView};
use crate::flylang::parser::ast::definables::functions::{DefineFunction, DefineFunctionView};
use crate::flylang::parser::ast::definables::variables::{DefineVariable, DefineVariableView};
use crate::flylang::parser::ast::instructions::Instructions;
use crate::flylang::parser::grammar::{class_rule, definable_rule, function_rule, variable_rule};
use crate::flylang::parser::mods::BehaviorSet;
use vstd::prelude::*;

pub mod class;
pub mod functions;
pub mod variables;

verus! {

/// Everything that defines a name.
#[derive(Debug)]
pub enum Definables {
    Function(DefineFunction),
    Variable(DefineVariable),
    Class(DefineClass),
}

/// What a `Definables` is, mathematically.
pub enum DefinablesView {
    Function(DefineFunctionView),
    Variable(DefineVariableView),
    Class(DefineClassView),
}

impl Definables {
    pub open spec fn view(self) -> DefinablesView
        decreases self,
    {
        match self {
            Definables::Function(inner) => DefinablesView::Function(inner@),
            Definables::Variable(inner) => DefinablesView::Variable(inner@),
            Definables::Class(inner) => DefinablesView::Class(inner@),
        }
    }

    /// An independent copy.
    pub fn duplicate(&self) -> (r: Self)
        ensures
            r@ == self@,
        decreases self,
    {
        match self {
            Definables::Function(inner) => Definables::Function(inner.duplicate()),
            Definables::Variable(inner) => Definables::Variable(inner.duplicate()),
            Definables::Class(inner) => Definables::Class(inner.duplicate()),
        }
    }
}

impl DefinablesView {
    /// Whether every part lies inside `outer`, the slice of the node that holds this, and
    /// is itself tidy.
    pub open spec fn tidy(self, outer: SliceView) -> bool
        decreases self,
    {
        match self {
            DefinablesView::Function(inner) => inner.tidy(outer),
            DefinablesView::Variable(inner) => inner.tidy(outer),
            DefinablesView::Class(inner) => inner.tidy(outer),
        }
    }
}

impl Node<Definables> {
    pub open spec fn view(self) -> NodeView<DefinablesView>
        decreases self,
    {
        NodeView { kind: self.kind@, location: self.location@ }
    }

    /// An independent copy.
    pub fn duplicate(&self) -> (r: Self)
        ensures
            r@ == self@,
        decreases self,
    {
        Node { kind: self.kind.duplicate(), location: self.location.duplicate() }
    }
}

impl Definables {
    /// The definition that the token at `at` opens.
    pub fn parse(
        parser: &Parser,
        at: usize,
        behaviors: BehaviorSet,
        previous: Option<Node<Instructions>>,
    ) -> (r: LangResult<(Node<Definables>, usize)>)
        ensures
            match definable_rule(parser@.source(), at as int, behaviors, previous_view(previous)) {
                Ok((found, end)) => r is Ok && r->Ok_0.0@ == found && r->Ok_0.1 == end
                    && parser@.source().forward(at as int, end),
                Err(error) => r is Err && r->Err_0@ == error,
            },
        decreases parser@.tokens, parser@.tokens.len() - at, 8int,
    {
        proof {
            reveal(definable_rule);
            reveal(variable_rule);
            reveal(class_rule);
            reveal(function_rule);
        }
        if at >= parser.len() {
            return Err(missing(parser.tail(), "a definition", None));
        }
        match &parser.token(at).kind {
            Tokens::VarDef(_) => match DefineVariable::parse(parser, at, behaviors, previous) {
                Err(error) => Err(error),
                Ok((found, end)) => Ok(
                    (Node { kind: Definables::Variable(found.kind), location: found.location }, end),
                ),
            },
            Tokens::Keyword(Keywords::Cs) => match DefineClass::parse(parser, at, previous) {
                Err(error) => Err(error),
                Ok((found, end)) => Ok(
                    (Node { kind: Definables::Class(found.kind), location: found.location }, end),
                ),
            },
            Tokens::Keyword(Keywords::Fn) => match DefineFunction::parse(parser, at, previous) {
                Err(error) => Err(error),
                Ok((found, end)) => Ok(
                    (Node { kind: Definables::Function(found.kind), location: found.location }, end),
                ),
            },
            _ => Err(parser.unexpected(at)),
        }
    }
}

} // verus!
