use crate::flylang::errors::LangResult;
use crate::flylang::lexer::tokens::{
    Keywords, ScopeTarget, ScopeTargetView, Toggleable, Token, Tokens, TokenView,
};
use crate::flylang::module::slice::{LangModuleSlice, SliceView};
use crate::flylang::parser::{missing, Parser, previous_view};
use crate::flylang::parser::ast::{Node, NodeView};
use crate::flylang::parser::ast::expressions::{Expressions, ExpressionsView};
use crate::flylang::parser::ast::instructions::Instructions;
use crate::flylang::parser::grammar::{break_rule, expression_rule};
use crate::flylang::parser::mods::BehaviorSet;
use vstd::prelude::*;

verus! {

/// How a scope is left.
#[derive(Debug)]
pub enum BreakKind {
    Stop(Option<Token<ScopeTarget>>),
    Pass(Option<Token<ScopeTarget>>),
    Return(Option<Token<ScopeTarget>>, Option<Node<Expressions>>),
}

/// What a `BreakKind` is, mathematically.
pub enum BreakKindView {
    Stop(Option<TokenView<ScopeTargetView>>),
    Pass(Option<TokenView<ScopeTargetView>>),
    Return(Option<TokenView<ScopeTargetView>>, Option<NodeView<ExpressionsView>>),
}

impl BreakKind {
    pub open spec fn view(self) -> BreakKindView
        decreases self,
    {
        match self {
            BreakKind::Stop(inner) => BreakKindView::Stop(
                match inner {
                    Some(token) => Some(TokenView { kind: token.kind@, location: token.location@ }),
                    None => None,
                },
            ),
            BreakKind::Pass(inner) => BreakKindView::Pass(
                match inner {
                    Some(token) => Some(TokenView { kind: token.kind@, location: token.location@ }),
                    None => None,
                },
            ),
            BreakKind::Return(first, second) => BreakKindView::Return(
                match first {
                    Some(token) => Some(TokenView { kind: token.kind@, location: token.location@ }),
                    None => None,
                },
                match second {
                    Some(expression) => Some(expression@),
                    None => None,
                },
            ),
        }
    }

    /// An independent copy.
    pub fn duplicate(&self) -> (r: Self)
        ensures
            r@ == self@,
        decreases self,
    {
        match self {
            BreakKind::Stop(inner) => BreakKind::Stop(
                match inner {
                    Some(token) => Some(Token {
                        kind: token.kind.duplicate(),
                        location: token.location.duplicate(),
                    }),
                    None => None,
                },
            ),
            BreakKind::Pass(inner) => BreakKind::Pass(
                match inner {
                    Some(token) => Some(Token {
                        kind: token.kind.duplicate(),
                        location: token.location.duplicate(),
                    }),
                    None => None,
                },
            ),
            BreakKind::Return(first, second) => BreakKind::Return(
                match first {
                    Some(token) => Some(Token {
                        kind: token.kind.duplicate(),
                        location: token.location.duplicate(),
                    }),
                    None => None,
                },
                match second {
                    Some(expression) => Some(expression.duplicate()),
                    None => None,
                },
            ),
        }
    }
}

impl BreakKindView {
    /// Whether every part lies inside `outer`, the slice of the node that holds this, and
    /// is itself tidy.
    pub open spec fn tidy(self, outer: SliceView) -> bool
        decreases self,
    {
        match self {
            BreakKindView::Stop(inner) => (match inner {
                Some(token) => outer.holds(token.location),
                None => true,
            }),
            BreakKindView::Pass(inner) => (match inner {
                Some(token) => outer.holds(token.location),
                None => true,
            }),
            BreakKindView::Return(first, second) => (match first {
                Some(token) => outer.holds(token.location),
                None => true,
            })
                && (match second {
                Some(expression) => outer.holds(expression.location) && expression.kind.tidy(expression.location),
                None => true,
            }),
        }
    }
}

/// An instruction that leaves a scope.
#[derive(Debug)]
pub struct Break {
    pub kind: BreakKind,
    pub keyword_location: LangModuleSlice,
}

/// What a `Break` is, mathematically.
pub struct BreakView {
    pub kind: BreakKindView,
    pub keyword_location: SliceView,
}

impl Break {
    pub open spec fn view(self) -> BreakView
        decreases self,
    {
        BreakView {
            kind: self.kind@,
            keyword_location: self.keyword_location@,
        }
    }

    /// An independent copy.
    pub fn duplicate(&self) -> (r: Self)
        ensures
            r@ == self@,
        decreases self,
    {
        Break {
            kind: self.kind.duplicate(),
            keyword_location: self.keyword_location.duplicate(),
        }
    }
}

impl BreakView {
    /// Whether every part lies inside `outer`, the slice of the node that holds this, and
    /// is itself tidy.
    pub open spec fn tidy(self, outer: SliceView) -> bool
        decreases self,
    {
        &&& self.kind.tidy(outer)
        &&& outer.holds(self.keyword_location)
    }
}

impl Node<Break> {
    pub open spec fn view(self) -> NodeView<BreakView>
        decreases self,
    {
        NodeView { kind: self.kind@, location: self.location@ }
    }

    /// An independent copy.
    pub fn duplicate(&self) -> (r: Self)
        ensures
            r@ == self@,
        decreases self,
    {
        Node { kind: self.kind.duplicate(), location: self.location.duplicate() }
    }
}

impl Break {
    /// `stop`, `pass` and `return`, where the keyword is the token at `at`.
    pub fn parse(
        parser: &Parser,
        at: usize,
        behaviors: BehaviorSet,
        previous: Option<Node<Instructions>>,
    ) -> (r: LangResult<(Node<Break>, usize)>)
        ensures
            match break_rule(parser@.source(), at as int, behaviors, previous_view(previous)) {
                Ok((found, end)) => r is Ok && r->Ok_0.0@ == found && r->Ok_0.1 == end
                    && parser@.source().forward(at as int, end),
                Err(error) => r is Err && r->Err_0@ == error,
            },
        decreases parser@.tokens, parser@.tokens.len() - at, 5int,
    {
        proof {
            reveal(break_rule);
            reveal(expression_rule);
        }
        let len = parser.len();
        if at >= len {
            return Err(missing(parser.tail(), "a breaker", None));
        }
        if previous.is_some() {
            return Err(parser.unexpected(at));
        }
        let token = parser.token(at);
        let mut scope: Option<Token<ScopeTarget>> = None;
        let mut next = at + 1;
        let mut ahead = token.location.duplicate();
        if at + 1 < len {
            let after = parser.token(at + 1);
            match &after.kind {
                Tokens::ScopeTarget(target) => {
                    scope = Some(
                        Token { kind: target.duplicate(), location: after.location.duplicate() },
                    );
                    next = at + 2;
                    ahead = token.location.join(&after.location);
                },
                _ => {},
            }
        }
        let keyword_location = token.location.duplicate();
        match &token.kind {
            Tokens::Keyword(Keywords::Pass) => Ok(
                (Node { kind: Break { kind: BreakKind::Pass(scope), keyword_location }, location: ahead }, next),
            ),
            Tokens::Keyword(Keywords::Stop) => Ok(
                (Node { kind: Break { kind: BreakKind::Stop(scope), keyword_location }, location: ahead }, next),
            ),
            Tokens::Keyword(Keywords::Return) => {
                if next < len && !matches!(
                    parser.token(next).kind,
                    Tokens::ArgSeparator | Tokens::Block(Toggleable::Closing)
                        | Tokens::EndOfInstruction
                ) {
                    match Expressions::parse(parser, next, behaviors, None) {
                        Err(error) => Err(error),
                        Ok((value, end)) => {
                            let location = ahead.join(&value.location);
                            Ok(
                                (
                                    Node {
                                        kind: Break {
                                            kind: BreakKind::Return(scope, Some(value)),
                                            keyword_location,
                                        },
                                        location,
                                    },
                                    end,
                                ),
                            )
                        },
                    }
                } else {
                    Ok(
                        (
                            Node {
                                kind: Break { kind: BreakKind::Return(scope, None), keyword_location },
                                location: ahead,
                            },
                            next,
                        ),
                    )
                }
            },
            _ => Err(parser.unexpected(at)),
        }
    }
}

} // verus!
