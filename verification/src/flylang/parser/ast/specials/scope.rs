use crate::flylang::errors::{LangErrorView, LangResult};
use crate::flylang::lexer::tokens::{ScopeTarget, ScopeTargetView, Tokens, TokensView};
use crate::flylang::parser::{missing, Parser, unable};
use crate::flylang::parser::ast::{Node, NodeView};
use crate::flylang::parser::grammar::expected;
use vstd::prelude::*;

verus! {

impl Node<ScopeTarget> {
    pub open spec fn view(self) -> NodeView<ScopeTargetView>
        decreases self,
    {
        NodeView { kind: self.kind@, location: self.location@ }
    }

    /// An independent copy.
    pub fn duplicate(&self) -> (r: Self)
        ensures
            r@ == self@,
        decreases self,
    {
        Node { kind: self.kind.duplicate(), location: self.location.duplicate() }
    }
}

impl ScopeTarget {
    /// The scope target that the token at `at` is; any other token is refused, and so is the
    /// end of the tokens.
    pub fn parse(parser: &Parser, at: usize) -> (r: LangResult<Node<ScopeTarget>>)
        ensures
            r is Ok == (at < parser@.tokens.len() && parser@.tokens[at as int].kind
                is ScopeTarget),
            r matches Ok(found) ==> TokensView::ScopeTarget(found@.kind)
                == parser@.tokens[at as int].kind && found@.location
                == parser@.tokens[at as int].location,
            r matches Err(error) ==> error@ == (if at < parser@.tokens.len() {
                LangErrorView::UnexpectedToken(parser@.tokens[at as int])
            } else {
                expected(parser@.source().tail(), "a scope target"@, None)
            }),
    {
        if at >= parser.len() {
            return Err(missing(parser.tail(), "a scope target", None));
        }
        let token = parser.token(at);
        match &token.kind {
            Tokens::ScopeTarget(target) => Ok(
                Node { kind: target.duplicate(), location: token.location.duplicate() },
            ),
            _ => Err(parser.unexpected(at)),
        }
    }
}

impl Node<ScopeTarget> {
    /// Check if the scope is valid for scope definition.
    pub fn expect_definition(&self) -> (r: LangResult<&Self>)
        ensures
            r is Ok == (self@.kind is Named),
            r matches Ok(same) ==> *same == *self,
            r matches Err(error) ==> error@ == LangErrorView::UnableToParse(
                self@.location,
                "You can only define a scope by a name"@,
            ),
    {
        if !matches!(self.kind, ScopeTarget::Named(_)) {
            return Err(unable(self.location.duplicate(), "You can only define a scope by a name"));
        }
        Ok(self)
    }
}

} // verus!
