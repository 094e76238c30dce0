use crate::flylang::errors::{LangErrorView, LangResult};
use crate::flylang::lexer::tokens::{Keywords, ScopeTarget, ScopeTargetView, Tokens};
use crate::flylang::module::slice::{LangModuleSlice, SliceView};
use crate::flylang::parser::{branch_views, missing, Parser, previous_view, unable};
use crate::flylang::parser::ast::{Node, NodeView};
use crate::flylang::parser::ast::expressions::{Expressions, ExpressionsView};
use crate::flylang::parser::ast::expressions::literals::Word;
use crate::flylang::parser::ast::expressions::reverse::{Reverse, ReverseKind, ReverseView};
use crate::flylang::parser::ast::instructions::{
    duplicate_instructions, instruction_views, Instructions, InstructionsView,
};
use crate::flylang::parser::grammar::{loop_name, loop_rule, scope_rule};
use crate::flylang::parser::parsable::{expression_of, word_of};
use vstd::prelude::*;

verus! {

/// What an `each` loop goes through, and the names it gives to the item and to its index.
#[derive(Debug)]
pub struct Each {
    pub iterable: Box<Node<Expressions>>,
    pub item: Option<Node<Word>>,
    pub index: Option<Node<Word>>,
}

/// What an `Each` is, mathematically.
pub struct EachView {
    pub iterable: Box<NodeView<ExpressionsView>>,
    pub item: Option<NodeView<Word>>,
    pub index: Option<NodeView<Word>>,
}

impl Each {
    pub open spec fn view(self) -> EachView
        decreases self,
    {
        EachView {
            iterable: Box::new((*self.iterable)@),
            item: match self.item {
                Some(word) => Some(word@),
                None => None,
            },
            index: match self.index {
                Some(word) => Some(word@),
                None => None,
            },
        }
    }

    /// An independent copy.
    pub fn duplicate(&self) -> (r: Self)
        ensures
            r@ == self@,
        decreases self,
    {
        Each {
            iterable: Box::new(self.iterable.duplicate()),
            item: match &self.item {
                Some(word) => Some(word.duplicate()),
                None => None,
            },
            index: match &self.index {
                Some(word) => Some(word.duplicate()),
                None => None,
            },
        }
    }
}

impl EachView {
    /// Whether every part lies inside `outer`, the slice of the node that holds this, and
    /// is itself tidy.
    pub open spec fn tidy(self, outer: SliceView) -> bool
        decreases self,
    {
        &&& outer.holds(self.iterable.location) && self.iterable.kind.tidy(self.iterable.location)
        &&& match self.item {
            Some(word) => outer.holds(word.location),
            None => true,
        }
        &&& match self.index {
            Some(word) => outer.holds(word.location),
            None => true,
        }
    }
}

// "Until" loops are converted to a while loop with a wrapper "not()" condition
/// What keeps a `while` loop going, and the name it gives to the number of the round.
#[derive(Debug)]
pub struct While {
    pub condition: Box<Node<Expressions>>,
    pub iteration_number: Option<Node<Word>>,
}

/// What a `While` is, mathematically.
pub struct WhileView {
    pub condition: Box<NodeView<ExpressionsView>>,
    pub iteration_number: Option<NodeView<Word>>,
}

impl While {
    pub open spec fn view(self) -> WhileView
        decreases self,
    {
        WhileView {
            condition: Box::new((*self.condition)@),
            iteration_number: match self.iteration_number {
                Some(word) => Some(word@),
                None => None,
            },
        }
    }

    /// An independent copy.
    pub fn duplicate(&self) -> (r: Self)
        ensures
            r@ == self@,
        decreases self,
    {
        While {
            condition: Box::new(self.condition.duplicate()),
            iteration_number: match &self.iteration_number {
                Some(word) => Some(word.duplicate()),
                None => None,
            },
        }
    }
}

impl WhileView {
    /// Whether every part lies inside `outer`, the slice of the node that holds this, and
    /// is itself tidy.
    pub open spec fn tidy(self, outer: SliceView) -> bool
        decreases self,
    {
        &&& outer.holds(self.condition.location) && self.condition.kind.tidy(self.condition.location)
        &&& match self.iteration_number {
            Some(word) => outer.holds(word.location),
            None => true,
        }
    }
}

/// What drives a loop.
#[derive(Debug)]
pub enum LoopParameter {
    Through(Each),
    Conditionnaly(While),
}

/// What a `LoopParameter` is, mathematically.
pub enum LoopParameterView {
    Through(EachView),
    Conditionnaly(WhileView),
}

impl LoopParameter {
    pub open spec fn view(self) -> LoopParameterView
        decreases self,
    {
        match self {
            LoopParameter::Through(inner) => LoopParameterView::Through(inner@),
            LoopParameter::Conditionnaly(inner) => LoopParameterView::Conditionnaly(inner@),
        }
    }

    /// An independent copy.
    pub fn duplicate(&self) -> (r: Self)
        ensures
            r@ == self@,
        decreases self,
    {
        match self {
            LoopParameter::Through(inner) => LoopParameter::Through(inner.duplicate()),
            LoopParameter::Conditionnaly(inner) => LoopParameter::Conditionnaly(inner.duplicate()),
        }
    }
}

impl LoopParameterView {
    /// Whether every part lies inside `outer`, the slice of the node that holds this, and
    /// is itself tidy.
    pub open spec fn tidy(self, outer: SliceView) -> bool
        decreases self,
    {
        match self {
            LoopParameterView::Through(inner) => inner.tidy(outer),
            LoopParameterView::Conditionnaly(inner) => inner.tidy(outer),
        }
    }
}

/// A loop.
#[derive(Debug)]
pub struct Loop {
    pub parameter: LoopParameter,
    pub process: Vec<Node<Instructions>>,
    pub scope_target: Option<Node<ScopeTarget>>,
}

/// What a `Loop` is, mathematically.
pub struct LoopView {
    pub parameter: LoopParameterView,
    pub process: Seq<NodeView<InstructionsView>>,
    pub scope_target: Option<NodeView<ScopeTargetView>>,
}

impl Loop {
    pub open spec fn view(self) -> LoopView
        decreases self,
    {
        LoopView {
            parameter: self.parameter@,
            process: instruction_views(self.process@),
            scope_target: match self.scope_target {
                Some(target) => Some(target@),
                None => None,
            },
        }
    }

    /// An independent copy.
    pub fn duplicate(&self) -> (r: Self)
        ensures
            r@ == self@,
        decreases self,
    {
        Loop {
            parameter: self.parameter.duplicate(),
            process: duplicate_instructions(&self.process),
            scope_target: match &self.scope_target {
                Some(target) => Some(target.duplicate()),
                None => None,
            },
        }
    }
}

impl LoopView {
    /// Whether every part lies inside `outer`, the slice of the node that holds this, and
    /// is itself tidy.
    pub open spec fn tidy(self, outer: SliceView) -> bool
        decreases self,
    {
        &&& self.parameter.tidy(outer)
        &&& forall|i: int|
            0 <= i < self.process.len() ==> outer.holds((#[trigger] self.process[i]).location)
                && self.process[i].kind.tidy(self.process[i].location)
        &&& match self.scope_target {
            Some(target) => outer.holds(target.location),
            None => true,
        }
    }
}

impl Node<Loop> {
    pub open spec fn view(self) -> NodeView<LoopView>
        decreases self,
    {
        NodeView { kind: self.kind@, location: self.location@ }
    }

    /// An independent copy.
    pub fn duplicate(&self) -> (r: Self)
        ensures
            r@ == self@,
        decreases self,
    {
        Node { kind: self.kind.duplicate(), location: self.location.duplicate() }
    }
}

impl Loop {
    /// The name that the branch `at` of a loop gives, if that branch is one for a name.
    pub fn name(branches: &Vec<Vec<Node<Instructions>>>, at: usize, location: &LangModuleSlice)
        -> (r: LangResult<Option<Node<Word>>>)
        ensures
            match loop_name(
                branch_views(branches@),
                at as int,
                LangErrorView::UnableToParse(location@, "Invalid arguments given."@),
            ) {
                Ok(name) => r is Ok && (match r->Ok_0 {
                    Some(word) => Some(word@),
                    None => None,
                }) == name,
                Err(error) => r is Err && r->Err_0@ == error,
            },
    {
        if 1 <= at && branches.len() >= 1 && at < branches.len() - 1 {
            assert(branch_views(branches@)[at as int] == instruction_views(branches@[at as int]@));
            match word_of(&branches[at], location, "Invalid arguments given.") {
                Err(error) => Err(error),
                Ok(word) => Ok(Some(word)),
            }
        } else {
            Ok(None)
        }
    }

    /// A loop, where its keyword is the token at `at`.
    pub fn parse(parser: &Parser, at: usize, previous: Option<Node<Instructions>>) -> (r:
        LangResult<(Node<Loop>, usize)>)
        ensures
            match loop_rule(parser@.source(), at as int, previous_view(previous)) {
                Ok((found, end)) => r is Ok && r->Ok_0.0@ == found && r->Ok_0.1 == end
                    && parser@.source().forward(at as int, end),
                Err(error) => r is Err && r->Err_0@ == error,
            },
        decreases parser@.tokens, parser@.tokens.len() - at, 5int,
    {
        proof {
            reveal(loop_rule);
            reveal(scope_rule);
        }
        if at >= parser.len() {
            return Err(missing(parser.tail(), "a loop", None));
        }
        if !matches!(parser.token(at).kind, Tokens::Keyword(Keywords::While | Keywords::Until | Keywords::Each)) {
            return Err(parser.unexpected(at));
        }
        if previous.is_some() {
            return Err(parser.unexpected(at));
        }
        let token = parser.token(at);
        let mut scope = match parser.scope(at + 1) {
            Err(error) => {
                return Err(error);
            },
            Ok(scope) => scope,
        };
        let closer = parser.location(scope.close);
        let inside = parser.location(scope.open).join(&closer);
        // The only difference between an "each" loop and "while"/"until" loops (in the ast) is that the "each" loops accept a "current-item" argument.
        // So because the syntax is similar, we parse them in the same way.
        let each = matches!(token.kind, Tokens::Keyword(Keywords::Each));
        assert(branch_views(scope.branches@)[0] == instruction_views(scope.branches@[0]@));
        // condirator = condition + iterator (one or the other)
        let driver = match expression_of(
            &scope.branches[0],
            &inside,
            if each {
                "Missing the iteratable"
            } else {
                "Missing the condition"
            },
        ) {
            Err(error) => {
                return Err(error);
            },
            Ok(driver) => driver,
        };
        let first = match Self::name(&scope.branches, 1, &inside) {
            Err(error) => {
                return Err(error);
            },
            Ok(first) => first,
        };
        let second = if each {
            match Self::name(&scope.branches, 2, &inside) {
                Err(error) => {
                    return Err(error);
                },
                Ok(second) => second,
            }
        } else {
            None
        };
        let most: usize = if each {
            4
        } else {
            3
        };
        if scope.branches.len() < 2 || scope.branches.len() > most {
            return Err(
                unable(
                    inside,
                    "Too much arguments or missing code to execute each loop repetition. (Add a trailing ',' to give an empty execution)",
                ),
            );
        }
        let parameter = if each {
            let ghost iterable = driver@;
            let through = Each { iterable: Box::new(driver), item: first, index: second };
            assert(through@ == (EachView {
                iterable: Box::new(iterable),
                item: match first {
                    Some(word) => Some(word@),
                    None => None,
                },
                index: match second {
                    Some(word) => Some(word@),
                    None => None,
                },
            }));
            LoopParameter::Through(through)
        } else {
            let ghost plain = driver@;
            let condition = if matches!(token.kind, Tokens::Keyword(Keywords::Until)) {
                let location = driver.location.duplicate();
                let reverse = Reverse { kind: ReverseKind::Boolean, expression: Box::new(driver) };
                assert(reverse@ == (ReverseView {
                    kind: ReverseKind::Boolean,
                    expression: Box::new(plain),
                }));
                let kind = Expressions::Reverse(reverse);
                assert(kind@ == ExpressionsView::Reverse(reverse@));
                Node { kind, location }
            } else {
                driver
            };
            let ghost kept = condition@;
            let conditionnaly = While { condition: Box::new(condition), iteration_number: first };
            assert(conditionnaly@ == (WhileView {
                condition: Box::new(kept),
                iteration_number: match first {
                    Some(word) => Some(word@),
                    None => None,
                },
            }));
            LoopParameter::Conditionnaly(conditionnaly)
        };
        let ghost all = scope.branches@;
        let process = scope.branches.pop().unwrap();
        assert(instruction_views(process@) == branch_views(all).last());
        let ghost driven = parameter@;
        let ghost target = scope@.target;
        let kind = Loop { parameter, process, scope_target: scope.target };
        assert(kind@ == (LoopView {
            parameter: driven,
            process: branch_views(all).last(),
            scope_target: target,
        }));
        Ok((Node { kind, location: token.location.join(&closer) }, scope.close + 1))
    }
}

} // verus!
