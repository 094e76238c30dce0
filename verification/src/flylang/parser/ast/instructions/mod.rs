use crate::flylang::errors::LangResult;
use crate::flylang::lexer::tokens::{Keywords, Tokens};
use crate::flylang::module::slice::SliceView;
use crate::flylang::parser::{missing, Parser, previous_view};
use crate::flylang::parser::ast::{Node, NodeView};
use crate::flylang::parser::ast::expressions::{Expressions, ExpressionsView};
use crate::flylang::parser::ast::expressions::ternary::Ternary;
use crate::flylang::parser::ast::instructions::breakers::{Break, BreakView};
use crate::flylang::parser::ast::instructions::conditionnal::{If, IfResult, IfView};
use crate::flylang::parser::ast::instructions::loops::{Each, Loop, LoopView, While};
use crate::flylang::parser::ast::instructions::package::{Package, PackageView};
use crate::flylang::parser::grammar::{
    break_rule, expression_rule, if_rule, instruction_rule, loop_rule, use_rule,
};
use crate::flylang::parser::mods::BehaviorSet;
use vstd::prelude::*;

pub mod breakers;
pub mod conditionnal;
pub mod loops;
pub mod package;

verus! {

/// Everything that a module is made of.
#[derive(Debug)]
pub enum Instructions {
    ValueOf(Expressions),
    If(If),
    Loop(Loop),
    Break(Break),
    Use(Package),
}

/// What an `Instructions` is, mathematically.
pub enum InstructionsView {
    ValueOf(ExpressionsView),
    If(IfView),
    Loop(LoopView),
    Break(BreakView),
    Use(PackageView),
}

impl Instructions {
    pub open spec fn view(self) -> InstructionsView
        decreases self,
    {
        match self {
            Instructions::ValueOf(inner) => InstructionsView::ValueOf(inner@),
            Instructions::If(inner) => InstructionsView::If(inner@),
            Instructions::Loop(inner) => InstructionsView::Loop(inner@),
            Instructions::Break(inner) => InstructionsView::Break(inner@),
            Instructions::Use(inner) => InstructionsView::Use(inner@),
        }
    }

    /// An independent copy.
    pub fn duplicate(&self) -> (r: Self)
        ensures
            r@ == self@,
        decreases self,
    {
        match self {
            Instructions::ValueOf(inner) => Instructions::ValueOf(inner.duplicate()),
            Instructions::If(inner) => Instructions::If(inner.duplicate()),
            Instructions::Loop(inner) => Instructions::Loop(inner.duplicate()),
            Instructions::Break(inner) => Instructions::Break(inner.duplicate()),
            Instructions::Use(inner) => Instructions::Use(inner.duplicate()),
        }
    }
}

impl InstructionsView {
    /// Whether every part lies inside `outer`, the slice of the node that holds this, and
    /// is itself tidy.
    pub open spec fn tidy(self, outer: SliceView) -> bool
        decreases self,
    {
        match self {
            InstructionsView::ValueOf(inner) => inner.tidy(outer),
            InstructionsView::If(inner) => inner.tidy(outer),
            InstructionsView::Loop(inner) => inner.tidy(outer),
            InstructionsView::Break(inner) => inner.tidy(outer),
            InstructionsView::Use(inner) => inner.tidy(outer),
        }
    }
}

impl Node<Instructions> {
    pub open spec fn view(self) -> NodeView<InstructionsView>
        decreases self,
    {
        NodeView { kind: self.kind@, location: self.location@ }
    }

    /// An independent copy.
    pub fn duplicate(&self) -> (r: Self)
        ensures
            r@ == self@,
        decreases self,
    {
        Node { kind: self.kind.duplicate(), location: self.location.duplicate() }
    }
}

/// The views of the nodes of `nodes`, in order.
pub open spec fn instruction_views(nodes: Seq<Node<Instructions>>) -> Seq<NodeView<InstructionsView>>
    decreases nodes,
{
    Seq::new(
        nodes.len(),
        |i: int|
            if 0 <= i < nodes.len() {
                nodes[i]@
            } else {
                arbitrary()
            },
    )
}

/// An independent copy of a list of nodes.
pub fn duplicate_instructions(nodes: &Vec<Node<Instructions>>) -> (r: Vec<Node<Instructions>>)
    ensures
        instruction_views(r@) == instruction_views(nodes@),
    decreases nodes,
{
    let mut out: Vec<Node<Instructions>> = Vec::new();
    let mut at: usize = 0;
    while at < nodes.len()
        invariant
            at <= nodes.len(),
            out@.len() == at,
            forall|i: int| 0 <= i < at ==> out@[i]@ == nodes@[i]@,
        decreases nodes.len() - at,
    {
        let copy = nodes[at].duplicate();
        out.push(copy);
        at = at + 1;
    }
    assert(instruction_views(out@) =~= instruction_views(nodes@));
    out
}

/// The views of a list with one more node are those of the list, then that of the node.
pub proof fn lemma_instruction_views_push(nodes: Seq<Node<Instructions>>, node: Node<Instructions>)
    ensures
        instruction_views(nodes.push(node)) == instruction_views(nodes).push(node@),
{
    assert(instruction_views(nodes.push(node)) =~= instruction_views(nodes).push(node@));
}

impl Instructions {
    /// The instruction that begins at the token at `at`.
    pub fn parse(
        parser: &Parser,
        at: usize,
        behaviors: BehaviorSet,
        previous: Option<Node<Instructions>>,
    ) -> (r: LangResult<(Node<Instructions>, usize)>)
        ensures
            match instruction_rule(parser@.source(), at as int, behaviors, previous_view(previous)) {
                Ok((found, end)) => r is Ok && r->Ok_0.0@ == found && r->Ok_0.1 == end
                    && parser@.source().forward(at as int, end),
                Err(error) => r is Err && r->Err_0@ == error,
            },
        decreases parser@.tokens, parser@.tokens.len() - at, 20int,
    {
        proof {
            reveal(instruction_rule);
            reveal(if_rule);
            reveal(loop_rule);
            reveal(break_rule);
            reveal(use_rule);
            reveal(expression_rule);
        }
        if at >= parser.len() {
            return Err(missing(parser.tail(), "an instruction", None));
        }
        let token = parser.token(at);
        match &token.kind {
            Tokens::EndOfInstruction => match previous {
                Some(instruction) => Ok((instruction, at + 1)),
                None => Err(parser.unexpected(at)),
            },
            Tokens::Keyword(Keywords::If) => {
                match If::parse(parser, at, behaviors, previous) {
                    Err(error) => Err(error),
                    Ok((found, end)) => Ok(
                        (
                            match found.kind {
                                IfResult::If(condition) => Node {
                                    kind: Instructions::If(condition),
                                    location: found.location,
                                },
                                IfResult::Ternary(ternary) => Node {
                                    kind: Instructions::ValueOf(Expressions::Ternary(ternary)),
                                    location: found.location,
                                },
                            },
                            end,
                        ),
                    ),
                }
            },
            Tokens::Keyword(Keywords::While)
            | Tokens::Keyword(Keywords::Until)
            | Tokens::Keyword(Keywords::Each) => {
                match Loop::parse(parser, at, previous) {
                    Err(error) => Err(error),
                    Ok((found, end)) => Ok(
                        (Node { kind: Instructions::Loop(found.kind), location: found.location }, end),
                    ),
                }
            },
            Tokens::Keyword(Keywords::Return)
            | Tokens::Keyword(Keywords::Pass)
            | Tokens::Keyword(Keywords::Stop) => {
                match Break::parse(parser, at, behaviors, previous) {
                    Err(error) => Err(error),
                    Ok((found, end)) => Ok(
                        (Node { kind: Instructions::Break(found.kind), location: found.location }, end),
                    ),
                }
            },
            Tokens::Keyword(Keywords::Use) => {
                match Package::parse(parser, at, previous) {
                    Err(error) => Err(error),
                    Ok((found, end)) => Ok(
                        (Node { kind: Instructions::Use(found.kind), location: found.location }, end),
                    ),
                }
            },
            _ => {
                let mut behaviors = behaviors;
                behaviors.lazy = false;
                match Expressions::parse(parser, at, behaviors, previous) {
                    Err(error) => Err(error),
                    Ok((found, end)) => Ok((found.into_instruction(), end)),
                }
            },
        }
    }
}

} // verus!
