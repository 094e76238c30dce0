use crate::flylang::errors::{LangError, LangResult};
use crate::flylang::lexer::tokens::{
    Keywords, ScopeTarget, ScopeTargetView, Toggleable, Token, Tokens,
};
use crate::flylang::module::slice::SliceView;
use crate::flylang::parser::{
    branch_views, missing, Parser, previous_view, ScopeParts, unable, unexpected_node,
};
use crate::flylang::parser::ast::{Node, NodeView};
use crate::flylang::parser::ast::expressions::{Expressions, ExpressionsView};
use crate::flylang::parser::ast::expressions::ternary::{Ternary, TernaryView};
use crate::flylang::parser::ast::instructions::{
    duplicate_instructions, instruction_views, Instructions, InstructionsView,
};
use crate::flylang::parser::errors::UnexpectedToken;
use crate::flylang::parser::grammar::{
    enclosed, fallback_rule, if_rule, scope_rule, Splitter, Stopper, ternary_of,
};
use crate::flylang::parser::mods::BehaviorSet;
use crate::flylang::parser::parsable::expression_of;
use vstd::prelude::*;

verus! {

/// What is done where the condition of an `if` does not hold.
#[derive(Debug)]
pub enum IfFallBack {
    Process(Option<Node<ScopeTarget>>, Vec<Node<Instructions>>),
    If(Node<If>),
}

/// What an `IfFallBack` is, mathematically.
pub enum IfFallBackView {
    Process(Option<NodeView<ScopeTargetView>>, Seq<NodeView<InstructionsView>>),
    If(NodeView<IfView>),
}

impl IfFallBack {
    pub open spec fn view(self) -> IfFallBackView
        decreases self,
    {
        match self {
            IfFallBack::Process(first, second) => IfFallBackView::Process(
                match first {
                    Some(target) => Some(target@),
                    None => None,
                },
                instruction_views(second@),
            ),
            IfFallBack::If(condition) => IfFallBackView::If(condition@),
        }
    }

    /// An independent copy.
    pub fn duplicate(&self) -> (r: Self)
        ensures
            r@ == self@,
        decreases self,
    {
        match self {
            IfFallBack::Process(first, second) => IfFallBack::Process(
                match first {
                    Some(target) => Some(target.duplicate()),
                    None => None,
                },
                duplicate_instructions(second),
            ),
            IfFallBack::If(condition) => IfFallBack::If(condition.duplicate()),
        }
    }
}

impl IfFallBackView {
    /// Whether every part lies inside `outer`, the slice of the node that holds this, and
    /// is itself tidy.
    pub open spec fn tidy(self, outer: SliceView) -> bool
        decreases self,
    {
        match self {
            IfFallBackView::Process(first, second) => (match first {
                Some(target) => outer.holds(target.location),
                None => true,
            })
                && (forall|i: int|
                0 <= i < second.len() ==> outer.holds((#[trigger] second[i]).location)
                    && second[i].kind.tidy(second[i].location)),
            IfFallBackView::If(condition) => outer.holds(condition.location) && condition.kind.tidy(condition.location),
        }
    }
}

/// A conditional instruction.
#[derive(Debug)]
pub struct If {
    pub condition: Node<Expressions>,
    pub process: Vec<Node<Instructions>>,
    pub fallback: Option<Box<Node<IfFallBack>>>,
    pub scope_target: Option<Node<ScopeTarget>>,
}

/// What an `If` is, mathematically.
pub struct IfView {
    pub condition: NodeView<ExpressionsView>,
    pub process: Seq<NodeView<InstructionsView>>,
    pub fallback: Option<Box<NodeView<IfFallBackView>>>,
    pub scope_target: Option<NodeView<ScopeTargetView>>,
}

impl If {
    pub open spec fn view(self) -> IfView
        decreases self,
    {
        IfView {
            condition: self.condition@,
            process: instruction_views(self.process@),
            fallback: match self.fallback {
                Some(fallback) => Some(Box::new((*fallback)@)),
                None => None,
            },
            scope_target: match self.scope_target {
                Some(target) => Some(target@),
                None => None,
            },
        }
    }

    /// An independent copy.
    pub fn duplicate(&self) -> (r: Self)
        ensures
            r@ == self@,
        decreases self,
    {
        If {
            condition: self.condition.duplicate(),
            process: duplicate_instructions(&self.process),
            fallback: match &self.fallback {
                Some(fallback) => Some(Box::new(fallback.duplicate())),
                None => None,
            },
            scope_target: match &self.scope_target {
                Some(target) => Some(target.duplicate()),
                None => None,
            },
        }
    }
}

impl IfView {
    /// Whether every part lies inside `outer`, the slice of the node that holds this, and
    /// is itself tidy.
    pub open spec fn tidy(self, outer: SliceView) -> bool
        decreases self,
    {
        &&& outer.holds(self.condition.location) && self.condition.kind.tidy(self.condition.location)
        &&& forall|i: int|
            0 <= i < self.process.len() ==> outer.holds((#[trigger] self.process[i]).location)
                && self.process[i].kind.tidy(self.process[i].location)
        &&& match self.fallback {
            Some(fallback) => outer.holds(fallback.location) && fallback.kind.tidy(fallback.location),
            None => true,
        }
        &&& match self.scope_target {
            Some(target) => outer.holds(target.location),
            None => true,
        }
    }
}

/// What an `if` turns out to be: a value, or an instruction.
#[derive(Debug)]
pub enum IfResult {
    Ternary(Ternary),
    If(If),
}

/// What an `IfResult` is, mathematically.
pub enum IfResultView {
    Ternary(TernaryView),
    If(IfView),
}

impl IfResult {
    pub open spec fn view(self) -> IfResultView
        decreases self,
    {
        match self {
            IfResult::Ternary(inner) => IfResultView::Ternary(inner@),
            IfResult::If(inner) => IfResultView::If(inner@),
        }
    }

    /// An independent copy.
    pub fn duplicate(&self) -> (r: Self)
        ensures
            r@ == self@,
        decreases self,
    {
        match self {
            IfResult::Ternary(inner) => IfResult::Ternary(inner.duplicate()),
            IfResult::If(inner) => IfResult::If(inner.duplicate()),
        }
    }
}

impl IfResultView {
    /// Whether every part lies inside `outer`, the slice of the node that holds this, and
    /// is itself tidy.
    pub open spec fn tidy(self, outer: SliceView) -> bool
        decreases self,
    {
        match self {
            IfResultView::Ternary(inner) => inner.tidy(outer),
            IfResultView::If(inner) => inner.tidy(outer),
        }
    }
}

impl Node<If> {
    pub open spec fn view(self) -> NodeView<IfView>
        decreases self,
    {
        NodeView { kind: self.kind@, location: self.location@ }
    }

    /// An independent copy.
    pub fn duplicate(&self) -> (r: Self)
        ensures
            r@ == self@,
        decreases self,
    {
        Node { kind: self.kind.duplicate(), location: self.location.duplicate() }
    }
}

impl Node<IfFallBack> {
    pub open spec fn view(self) -> NodeView<IfFallBackView>
        decreases self,
    {
        NodeView { kind: self.kind@, location: self.location@ }
    }

    /// An independent copy.
    pub fn duplicate(&self) -> (r: Self)
        ensures
            r@ == self@,
        decreases self,
    {
        Node { kind: self.kind.duplicate(), location: self.location.duplicate() }
    }
}

impl Node<IfResult> {
    pub open spec fn view(self) -> NodeView<IfResultView>
        decreases self,
    {
        NodeView { kind: self.kind@, location: self.location@ }
    }

    /// An independent copy.
    pub fn duplicate(&self) -> (r: Self)
        ensures
            r@ == self@,
        decreases self,
    {
        Node { kind: self.kind.duplicate(), location: self.location.duplicate() }
    }
}

impl If {
    /// The value that an `if` of three branches is, given its condition. `if` is the
    /// token at `at`.
    pub(crate) fn ternary(parser: &Parser, at: usize, scope: &ScopeParts, condition: Node<Expressions>)
        -> (r: LangResult<(Node<IfResult>, usize)>)
        requires
            at + 1 < parser@.tokens.len(),
            scope.close < parser@.tokens.len(),
            scope.branches@.len() == 3,
        ensures
            match ternary_of(parser@.source(), at as int, scope@, condition@) {
                Ok((found, end)) => r is Ok && r->Ok_0.0@ == found && r->Ok_0.1 == end,
                Err(error) => r is Err && r->Err_0@ == error,
            },
    {
        let len = parser.len();
        let closer = parser.location(scope.close);
        let arguments = parser.location(at + 1).join(&closer);
        match &scope.target {
            Some(target) => {
                return Err(
                    LangError::UnexpectedToken(
                        UnexpectedToken(
                            Token {
                                kind: Tokens::ScopeTarget(target.kind.duplicate()),
                                location: target.location.duplicate(),
                            },
                        ),
                    ),
                );
            },
            None => {},
        }
        assert(branch_views(scope.branches@)[1] == instruction_views(scope.branches@[1]@));
        assert(branch_views(scope.branches@)[2] == instruction_views(scope.branches@[2]@));
        let yes = match expression_of(
            &scope.branches[1],
            &arguments,
            "Unable to parse ternary items : expected 1 expression per argument",
        ) {
            Err(error) => {
                return Err(error);
            },
            Ok(yes) => yes,
        };
        let no = match expression_of(
            &scope.branches[2],
            &arguments,
            "Unable to parse ternary items : expected 1 expression per argument",
        ) {
            Err(error) => {
                return Err(error);
            },
            Ok(no) => no,
        };
        Ok(
            (
                Node {
                    kind: IfResult::Ternary(
                        Ternary {
                            condition: Box::new(condition),
                            yes: Box::new(yes),
                            no: Box::new(no),
                        },
                    ),
                    location: parser.location(at).join(&closer),
                },
                scope.close + 1,
            ),
        )
    }

    /// `if`, where `if` is the token at `at`: an instruction, or a value.
    pub fn parse(
        parser: &Parser,
        at: usize,
        behaviors: BehaviorSet,
        previous: Option<Node<Instructions>>,
    ) -> (r: LangResult<(Node<IfResult>, usize)>)
        ensures
            match if_rule(parser@.source(), at as int, behaviors, previous_view(previous)) {
                Ok((found, end)) => r is Ok && r->Ok_0.0@ == found && r->Ok_0.1 == end
                    && parser@.source().forward(at as int, end),
                Err(error) => r is Err && r->Err_0@ == error,
            },
        decreases parser@.tokens, parser@.tokens.len() - at, 6int,
    {
        proof {
            reveal(if_rule);
            reveal(scope_rule);
            reveal(fallback_rule);
        }
        let len = parser.len();
        if at >= len {
            return Err(missing(parser.tail(), "if", None));
        }
        if !matches!(parser.token(at).kind, Tokens::Keyword(Keywords::If)) {
            return Err(parser.unexpected(at));
        }
        if previous.is_some() || at + 1 >= len {
            return Err(parser.unexpected(at));
        }
        let opener = parser.token(at + 1);
        if !matches!(opener.kind, Tokens::Block(Toggleable::Openning) | Tokens::ScopeTarget(_)) {
            return Err(
                missing(parser.location(at), "(<condition>, <code>)", parser.text(at + 1)),
            );
        }
        let mut scope = match parser.scope(at + 1) {
            Err(error) => {
                return Err(error);
            },
            Ok(scope) => scope,
        };
        let closer = parser.location(scope.close);
        let arguments = opener.location.join(&closer);
        if scope.branches.len() != 2 && scope.branches.len() != 3 {
            return Err(unable(arguments, "Expected 2 or 3 arguments"));
        }
        assert(branch_views(scope.branches@)[0] == instruction_views(scope.branches@[0]@));
        assert(branch_views(scope.branches@)[1] == instruction_views(scope.branches@[1]@));
        let condition = match expression_of(
            &scope.branches[0],
            &arguments,
            "Unable to validate the condition. Expected 1 expression",
        ) {
            Err(error) => {
                return Err(error);
            },
            Ok(condition) => condition,
        };
        // The only way a if condition can have 3 arguments is if it is a ternary expression
        if scope.branches.len() == 3 {
            return Self::ternary(parser, at, &scope, condition);
        }
        let process = scope.branches.pop().unwrap();
        // If there is an "else"
        if scope.close + 1 < len && matches!(
            parser.token(scope.close + 1).kind,
            Tokens::Keyword(Keywords::Else)
        ) {
            match IfFallBack::parse(parser, scope.close + 1, behaviors) {
                Err(error) => Err(error),
                Ok((fallback, end)) => {
                    let location = parser.location(at).join(&fallback.location);
                    Ok(
                        (
                            Node {
                                kind: IfResult::If(
                                    If {
                                        condition,
                                        process,
                                        fallback: Some(Box::new(fallback)),
                                        scope_target: scope.target,
                                    },
                                ),
                                location,
                            },
                            end,
                        ),
                    )
                },
            }
        } else {
            Ok(
                (
                    Node {
                        kind: IfResult::If(
                            If { condition, process, fallback: None, scope_target: scope.target },
                        ),
                        location: parser.location(at).join(&closer),
                    },
                    scope.close + 1,
                ),
            )
        }
    }
}

impl IfFallBack {
    /// What the `else` at `at` opens.
    pub fn parse(parser: &Parser, at: usize, behaviors: BehaviorSet) -> (r: LangResult<
        (Node<IfFallBack>, usize),
    >)
        ensures
            match fallback_rule(parser@.source(), at as int, behaviors) {
                Ok((found, end)) => r is Ok && r->Ok_0.0@ == found && r->Ok_0.1 == end
                    && parser@.source().forward(at as int, end),
                Err(error) => r is Err && r->Err_0@ == error,
            },
        decreases parser@.tokens, parser@.tokens.len() - at, 7int,
    {
        proof {
            reveal(fallback_rule);
            reveal(if_rule);
            reveal(enclosed);
        }
        let len = parser.len();
        if at >= len {
            return Err(missing(parser.tail(), "else", None));
        }
        if !matches!(parser.token(at).kind, Tokens::Keyword(Keywords::Else)) || at + 1 >= len {
            return Err(parser.unexpected(at));
        }
        match &parser.token(at + 1).kind {
            Tokens::Keyword(Keywords::If) => {
                match If::parse(parser, at + 1, behaviors, None) {
                    Err(error) => Err(error),
                    Ok((found, end)) => {
                        let location = parser.location(at).join(&found.location);
                        match found.kind {
                            IfResult::If(condition) => Ok(
                                (
                                    Node {
                                        kind: IfFallBack::If(
                                            Node { kind: condition, location: found.location },
                                        ),
                                        location,
                                    },
                                    end,
                                ),
                            ),
                            IfResult::Ternary(ternary) => Err(
                                unexpected_node(
                                    Node {
                                        kind: Instructions::ValueOf(Expressions::Ternary(ternary)),
                                        location: found.location,
                                    },
                                ),
                            ),
                        }
                    },
                }
            },
            Tokens::Block(Toggleable::Openning) => {
                match parser.enclosed(
                    at + 2,
                    Stopper::Block,
                    Splitter::Nothing,
                    BehaviorSet::new(),
                ) {
                    Err(error) => Err(error),
                    Ok((mut branches, close)) => {
                        let ghost all = branches@;
                        let location = parser.location(at).join(&parser.token(close).location);
                        let process = branches.remove(0);
                        assert(instruction_views(process@) == branch_views(all)[0]);
                        Ok((Node { kind: IfFallBack::Process(None, process), location }, close + 1))
                    },
                }
            },
            _ => Err(missing(parser.location(at), "( or <if_instruction>", parser.text(at + 1))),
        }
    }
}

} // verus!
