use crate::flylang::errors::LangResult;
use crate::flylang::lexer::tokens::{
    Keywords, Literals, ScopeTarget, ScopeTargetView, Toggleable, Tokens,
};
use crate::flylang::module::slice::SliceView;
use crate::flylang::parser::{missing, Parser, previous_view};
use crate::flylang::parser::ast::{Node, NodeView};
use crate::flylang::parser::ast::expressions::literals::{duplicate_words, Word, word_views};
use crate::flylang::parser::ast::instructions::{
    duplicate_instructions, instruction_views, Instructions, InstructionsView,
};
use crate::flylang::parser::ast::instructions::breakers::{
    Break, BreakKind, BreakKindView, BreakView,
};
use crate::flylang::parser::grammar::{execution_of, function_rule, scope_rule};
use crate::flylang::parser::parsable::words_of;
use vstd::prelude::*;

verus! {

/// The definition of a function.
#[derive(Debug)]
pub struct DefineFunction {
    pub name: Option<Node<Word>>,
    pub arguments: Vec<Node<Word>>,
    pub execution: Vec<Node<Instructions>>,
    pub scope_target: Option<Node<ScopeTarget>>,
}

/// What a `DefineFunction` is, mathematically.
pub struct DefineFunctionView {
    pub name: Option<NodeView<Word>>,
    pub arguments: Seq<NodeView<Word>>,
    pub execution: Seq<NodeView<InstructionsView>>,
    pub scope_target: Option<NodeView<ScopeTargetView>>,
}

impl DefineFunction {
    pub open spec fn view(self) -> DefineFunctionView
        decreases self,
    {
        DefineFunctionView {
            name: match self.name {
                Some(word) => Some(word@),
                None => None,
            },
            arguments: word_views(self.arguments@),
            execution: instruction_views(self.execution@),
            scope_target: match self.scope_target {
                Some(target) => Some(target@),
                None => None,
            },
        }
    }

    /// An independent copy.
    pub fn duplicate(&self) -> (r: Self)
        ensures
            r@ == self@,
        decreases self,
    {
        DefineFunction {
            name: match &self.name {
                Some(word) => Some(word.duplicate()),
                None => None,
            },
            arguments: duplicate_words(&self.arguments),
            execution: duplicate_instructions(&self.execution),
            scope_target: match &self.scope_target {
                Some(target) => Some(target.duplicate()),
                None => None,
            },
        }
    }
}

impl DefineFunctionView {
    /// Whether every part lies inside `outer`, the slice of the node that holds this, and
    /// is itself tidy.
    pub open spec fn tidy(self, outer: SliceView) -> bool
        decreases self,
    {
        &&& match self.name {
            Some(word) => outer.holds(word.location),
            None => true,
        }
        &&& forall|i: int|
            0 <= i < self.arguments.len() ==> outer.holds((#[trigger] self.arguments[i]).location)
        &&& forall|i: int|
            0 <= i < self.execution.len() ==> outer.holds((#[trigger] self.execution[i]).location)
                && self.execution[i].kind.tidy(self.execution[i].location)
        &&& match self.scope_target {
            Some(target) => outer.holds(target.location),
            None => true,
        }
    }
}

impl Node<DefineFunction> {
    pub open spec fn view(self) -> NodeView<DefineFunctionView>
        decreases self,
    {
        NodeView { kind: self.kind@, location: self.location@ }
    }

    /// An independent copy.
    pub fn duplicate(&self) -> (r: Self)
        ensures
            r@ == self@,
        decreases self,
    {
        Node { kind: self.kind.duplicate(), location: self.location.duplicate() }
    }
}

/// What a function executes, given the last branch of its scope: a lone expression is what
/// the function returns.
pub fn execution(branch: Vec<Node<Instructions>>) -> (r: Vec<Node<Instructions>>)
    ensures
        instruction_views(r@) == execution_of(instruction_views(branch@)),
{
    if branch.len() == 1 {
        assert(instruction_views(branch@)[0] == branch@[0]@);
        match &branch[0].kind {
            Instructions::ValueOf(expression) => {
                assert(branch@[0]@.kind == InstructionsView::ValueOf(expression@));
                let value = Node {
                    kind: expression.duplicate(),
                    location: branch[0].location.duplicate(),
                };
                let kind = BreakKind::Return(None, Some(value));
                assert(kind@ == BreakKindView::Return(None, Some(value@)));
                let breaker = Break { kind, keyword_location: branch[0].location.duplicate() };
                assert(breaker@ == (BreakView {
                    kind: BreakKindView::Return(None, Some(value@)),
                    keyword_location: branch@[0]@.location,
                }));
                let returned = Node {
                    kind: Instructions::Break(breaker),
                    location: branch[0].location.duplicate(),
                };
                let mut only: Vec<Node<Instructions>> = Vec::new();
                only.push(returned);
                assert(instruction_views(only@) =~= seq![returned@]);
                only
            },
            _ => {
                assert(!(branch@[0]@.kind is ValueOf));
                branch
            },
        }
    } else {
        branch
    }
}

impl DefineFunction {
    /// The definition of a function, where `fn` is the token at `at`.
    pub fn parse(parser: &Parser, at: usize, previous: Option<Node<Instructions>>) -> (r:
        LangResult<(Node<DefineFunction>, usize)>)
        ensures
            match function_rule(parser@.source(), at as int, previous_view(previous)) {
                Ok((found, end)) => r is Ok && r->Ok_0.0@ == found && r->Ok_0.1 == end
                    && parser@.source().forward(at as int, end),
                Err(error) => r is Err && r->Err_0@ == error,
            },
        decreases parser@.tokens, parser@.tokens.len() - at, 5int,
    {
        proof {
            reveal(function_rule);
            reveal(scope_rule);
        }
        let len = parser.len();
        if at >= len {
            return Err(missing(parser.tail(), "fn", None));
        }
        if !matches!(parser.token(at).kind, Tokens::Keyword(Keywords::Fn)) {
            return Err(parser.unexpected(at));
        }
        if previous.is_some() || at + 1 >= len {
            return Err(parser.unexpected(at));
        }
        let after = parser.token(at + 1);
        let (name, opening) = if matches!(after.kind, Tokens::Literal(Literals::Word)) {
            (Some(Node { kind: Word, location: after.location.duplicate() }), at + 2)
        } else {
            (None, at + 1)
        };
        if opening >= len {
            return Err(missing(parser.location(opening - 1), "(", None));
        }
        let opener = parser.token(opening);
        if !matches!(opener.kind, Tokens::Block(Toggleable::Openning) | Tokens::ScopeTarget(_)) {
            return Err(parser.unexpected(opening));
        }
        let mut scope = match parser.scope(opening) {
            Err(error) => {
                return Err(error);
            },
            Ok(scope) => scope,
        };
        let closer = parser.location(scope.close);
        let arguments = match words_of(
            &scope.branches,
            0,
            scope.branches.len() - 1,
            &opener.location.join(&closer),
            "One of the argument is not a valid expression",
        ) {
            Err(error) => {
                return Err(error);
            },
            Ok(arguments) => arguments,
        };
        let ghost branches = scope.branches@;
        let last = scope.branches.pop().unwrap();
        assert(instruction_views(last@) == crate::flylang::parser::branch_views(branches).last());
        let location = parser.location(at).join(&closer);
        Ok(
            (
                Node {
                    kind: DefineFunction {
                        name,
                        arguments,
                        execution: execution(last),
                        scope_target: scope.target,
                    },
                    location,
                },
                scope.close + 1,
            ),
        )
    }
}

} // verus!
