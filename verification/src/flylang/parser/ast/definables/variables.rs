use crate::flylang::errors::LangResult;
use crate::flylang::lexer::tokens::{Token, Tokens, TokenView, VarDefinition};
use crate::flylang::module::slice::SliceView;
use crate::flylang::parser::{missing, Parser, previous_view, unexpected_node};
use crate::flylang::parser::ast::{Node, NodeView};
use crate::flylang::parser::ast::expressions::{Expressions, ExpressionsView};
use crate::flylang::parser::ast::expressions::literals::{ParsedLiterals, Word};
use crate::flylang::parser::ast::expressions::operations::{
    Operation, Operations, OperationsView, OperationView,
};
use crate::flylang::parser::ast::expressions::property::{Property, ReadProperty, ReadPropertyView};
use crate::flylang::parser::ast::instructions::Instructions;
use crate::flylang::parser::grammar::{expression_rule, variable_rule};
use crate::flylang::parser::mods::BehaviorSet;
use vstd::prelude::*;

verus! {

/// Where a variable lives.
#[derive(Debug)]
pub enum VariableEmplacements {
    Scope,
    Property(ReadProperty),
    /// This should never be used.
    ///
    /// It is here to allow structure to have any expression as key (expect object access)
    Any(Box<Expressions>),
}

/// What a `VariableEmplacements` is, mathematically.
pub enum VariableEmplacementsView {
    Scope,
    Property(ReadPropertyView),
    Any(Box<ExpressionsView>),
}

impl VariableEmplacements {
    pub open spec fn view(self) -> VariableEmplacementsView
        decreases self,
    {
        match self {
            VariableEmplacements::Scope => VariableEmplacementsView::Scope,
            VariableEmplacements::Property(inner) => VariableEmplacementsView::Property(inner@),
            VariableEmplacements::Any(inner) => VariableEmplacementsView::Any(Box::new((*inner)@)),
        }
    }

    /// An independent copy.
    pub fn duplicate(&self) -> (r: Self)
        ensures
            r@ == self@,
        decreases self,
    {
        match self {
            VariableEmplacements::Scope => VariableEmplacements::Scope,
            VariableEmplacements::Property(inner) => VariableEmplacements::Property(inner.duplicate()),
            VariableEmplacements::Any(inner) => VariableEmplacements::Any(Box::new(inner.duplicate())),
        }
    }
}

impl VariableEmplacementsView {
    /// Whether every part lies inside `outer`, the slice of the node that holds this, and
    /// is itself tidy.
    pub open spec fn tidy(self, outer: SliceView) -> bool
        decreases self,
    {
        match self {
            VariableEmplacementsView::Scope => true,
            VariableEmplacementsView::Property(inner) => inner.tidy(outer),
            VariableEmplacementsView::Any(inner) => inner.tidy(outer),
        }
    }
}

/// The definition of a variable.
#[derive(Debug)]
pub struct DefineVariable {
    pub emplacement: Node<VariableEmplacements>,
    pub value: Box<Node<Expressions>>,
    pub readonly: bool,
}

/// What a `DefineVariable` is, mathematically.
pub struct DefineVariableView {
    pub emplacement: NodeView<VariableEmplacementsView>,
    pub value: Box<NodeView<ExpressionsView>>,
    pub readonly: bool,
}

impl DefineVariable {
    pub open spec fn view(self) -> DefineVariableView
        decreases self,
    {
        DefineVariableView {
            emplacement: self.emplacement@,
            value: Box::new((*self.value)@),
            readonly: self.readonly,
        }
    }

    /// An independent copy.
    pub fn duplicate(&self) -> (r: Self)
        ensures
            r@ == self@,
        decreases self,
    {
        DefineVariable {
            emplacement: self.emplacement.duplicate(),
            value: Box::new(self.value.duplicate()),
            readonly: self.readonly,
        }
    }
}

impl DefineVariableView {
    /// Whether every part lies inside `outer`, the slice of the node that holds this, and
    /// is itself tidy.
    pub open spec fn tidy(self, outer: SliceView) -> bool
        decreases self,
    {
        &&& outer.holds(self.emplacement.location) && self.emplacement.kind.tidy(self.emplacement.location)
        &&& outer.holds(self.value.location) && self.value.kind.tidy(self.value.location)
    }
}

impl Node<VariableEmplacements> {
    pub open spec fn view(self) -> NodeView<VariableEmplacementsView>
        decreases self,
    {
        NodeView { kind: self.kind@, location: self.location@ }
    }

    /// An independent copy.
    pub fn duplicate(&self) -> (r: Self)
        ensures
            r@ == self@,
        decreases self,
    {
        Node { kind: self.kind.duplicate(), location: self.location.duplicate() }
    }
}

impl Node<DefineVariable> {
    pub open spec fn view(self) -> NodeView<DefineVariableView>
        decreases self,
    {
        NodeView { kind: self.kind@, location: self.location@ }
    }

    /// An independent copy.
    pub fn duplicate(&self) -> (r: Self)
        ensures
            r@ == self@,
        decreases self,
    {
        Node { kind: self.kind.duplicate(), location: self.location.duplicate() }
    }
}

impl DefineVariable {
    /// The definition of a variable, where `previous` is the emplacement and the mark is
    /// the token at `at`.
    pub fn parse(
        parser: &Parser,
        at: usize,
        behaviors: BehaviorSet,
        previous: Option<Node<Instructions>>,
    ) -> (r: LangResult<(Node<DefineVariable>, usize)>)
        ensures
            match variable_rule(parser@.source(), at as int, behaviors, previous_view(previous)) {
                Ok((found, end)) => r is Ok && r->Ok_0.0@ == found && r->Ok_0.1 == end
                    && parser@.source().forward(at as int, end),
                Err(error) => r is Err && r->Err_0@ == error,
            },
        decreases parser@.tokens, parser@.tokens.len() - at, 5int,
    {
        proof {
            reveal(variable_rule);
            reveal(expression_rule);
        }
        if at >= parser.len() {
            return Err(missing(parser.tail(), ":", None));
        }
        let token = parser.token(at);
        let mark = match &token.kind {
            Tokens::VarDef(mark) => mark,
            _ => {
                return Err(parser.unexpected(at));
            },
        };
        let emplacement = match previous {
            None => {
                return Err(parser.unexpected(at));
            },
            Some(emplacement) => emplacement,
        };
        let expression = match &emplacement.kind {
            Instructions::ValueOf(expression) => expression,
            _ => {
                return Err(unexpected_node(emplacement));
            },
        };
        let place = match expression {
            Expressions::Literal(ParsedLiterals::Word) => VariableEmplacements::Scope,
            Expressions::Read(property) => VariableEmplacements::Property(property.duplicate()),
            _ => {
                if behaviors.any || behaviors.any_recursive {
                    VariableEmplacements::Any(Box::new(expression.duplicate()))
                } else {
                    return Err(unexpected_node(emplacement));
                }
            },
        };
        // The value follows the mark
        if at + 1 >= parser.len() {
            return Err(missing(parser.location(at), "variable's new value", None));
        }
        let for_value = BehaviorSet {
            lazy: false,
            any: behaviors.any && behaviors.any_recursive,
            any_recursive: behaviors.any_recursive,
        };
        let (written, end) = match Expressions::parse(parser, at + 1, for_value, None) {
            Err(error) => {
                return Err(error);
            },
            Ok(found) => found,
        };
        let location = emplacement.location.join(&written.location);
        let ghost written_view = written@;
        let value = match mark {
            VarDefinition::WithOperation(operator) => {
                let left = Node {
                    kind: expression.duplicate(),
                    location: emplacement.location.duplicate(),
                };
                let operation = Operation {
                    operator: Token {
                        kind: operator.kind,
                        location: operator.location.duplicate(),
                    },
                    operands: (Box::new(left), Box::new(written)),
                };
                assert(operation@ == (OperationView {
                    operator: TokenView { kind: operator.kind, location: operator.location@ },
                    operands: (Box::new(left@), Box::new(written_view)),
                }));
                let operations = Operations::Numeric(operation);
                assert(operations@ == OperationsView::Numeric(operation@));
                let kind = Expressions::Operation(operations);
                assert(kind@ == ExpressionsView::Operation(operations@));
                Node { kind, location: location.duplicate() }
            },
            _ => written,
        };
        let place = Node { kind: place, location: emplacement.location };
        let definition = DefineVariable {
            emplacement: place,
            value: Box::new(value),
            readonly: matches!(mark, VarDefinition::Constant),
        };
        assert(definition@ == (DefineVariableView {
            emplacement: place@,
            value: Box::new(value@),
            readonly: definition.readonly,
        }));
        Ok((Node { kind: definition, location }, end))
    }
}

} // verus!
