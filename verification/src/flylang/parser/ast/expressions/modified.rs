use crate::flylang::errors::LangResult;
use crate::flylang::lexer::tokens::{Toggleable, Tokens};
use crate::flylang::module::slice::{LangModuleSlice, SliceView};
use crate::flylang::parser::{branch_views, missing, Parser, previous_view, unable};
use crate::flylang::parser::ast::{Node, NodeView};
use crate::flylang::parser::ast::definables::{Definables, DefinablesView};
use crate::flylang::parser::ast::expressions::Expressions;
use crate::flylang::parser::ast::expressions::call::{Call, CallView};
use crate::flylang::parser::ast::expressions::literals::{ParsedLiterals, Word};
use crate::flylang::parser::ast::instructions::{instruction_views, Instructions};
use crate::flylang::parser::grammar::{
    enclosed, expression_rule, modified_rule, modifiers_list, modifiers_of, scope_rule, Splitter,
    Stopper,
};
use crate::flylang::parser::mods::BehaviorSet;
use crate::flylang::parser::parsable::{lemma_call_view, lemma_word_view};
use vstd::prelude::*;

verus! {

/// What modifies a definition: something named, or what a call returns.
#[derive(Debug)]
pub enum Modifier {
    DefinedElement,
    CallReturn(Call),
}

/// What a `Modifier` is, mathematically.
pub enum ModifierView {
    DefinedElement,
    CallReturn(CallView),
}

impl Modifier {
    pub open spec fn view(self) -> ModifierView
        decreases self,
    {
        match self {
            Modifier::DefinedElement => ModifierView::DefinedElement,
            Modifier::CallReturn(inner) => ModifierView::CallReturn(inner@),
        }
    }

    /// An independent copy.
    pub fn duplicate(&self) -> (r: Self)
        ensures
            r@ == self@,
        decreases self,
    {
        match self {
            Modifier::DefinedElement => Modifier::DefinedElement,
            Modifier::CallReturn(inner) => Modifier::CallReturn(inner.duplicate()),
        }
    }
}

impl ModifierView {
    /// Whether every part lies inside `outer`, the slice of the node that holds this, and
    /// is itself tidy.
    pub open spec fn tidy(self, outer: SliceView) -> bool
        decreases self,
    {
        match self {
            ModifierView::DefinedElement => true,
            ModifierView::CallReturn(inner) => inner.tidy(outer),
        }
    }
}

/// A definition, with the modifiers that stand before it.
#[derive(Debug)]
pub struct ModifiedDefinable {
    pub definable: Node<Definables>,
    pub modified_by: Vec<Node<Modifier>>,
}

/// What a `ModifiedDefinable` is, mathematically.
pub struct ModifiedDefinableView {
    pub definable: NodeView<DefinablesView>,
    pub modified_by: Seq<NodeView<ModifierView>>,
}

impl ModifiedDefinable {
    pub open spec fn view(self) -> ModifiedDefinableView
        decreases self,
    {
        ModifiedDefinableView {
            definable: self.definable@,
            modified_by: modifier_views(self.modified_by@),
        }
    }

    /// An independent copy.
    pub fn duplicate(&self) -> (r: Self)
        ensures
            r@ == self@,
        decreases self,
    {
        ModifiedDefinable {
            definable: self.definable.duplicate(),
            modified_by: duplicate_modifiers(&self.modified_by),
        }
    }
}

impl ModifiedDefinableView {
    /// Whether every part lies inside `outer`, the slice of the node that holds this, and
    /// is itself tidy.
    pub open spec fn tidy(self, outer: SliceView) -> bool
        decreases self,
    {
        &&& outer.holds(self.definable.location) && self.definable.kind.tidy(self.definable.location)
        &&& forall|i: int|
            0 <= i < self.modified_by.len() ==> outer.holds((#[trigger] self.modified_by[i]).location)
                && self.modified_by[i].kind.tidy(self.modified_by[i].location)
    }
}

impl Node<Modifier> {
    pub open spec fn view(self) -> NodeView<ModifierView>
        decreases self,
    {
        NodeView { kind: self.kind@, location: self.location@ }
    }

    /// An independent copy.
    pub fn duplicate(&self) -> (r: Self)
        ensures
            r@ == self@,
        decreases self,
    {
        Node { kind: self.kind.duplicate(), location: self.location.duplicate() }
    }
}

/// The views of the nodes of `nodes`, in order.
pub open spec fn modifier_views(nodes: Seq<Node<Modifier>>) -> Seq<NodeView<ModifierView>>
    decreases nodes,
{
    Seq::new(
        nodes.len(),
        |i: int|
            if 0 <= i < nodes.len() {
                nodes[i]@
            } else {
                arbitrary()
            },
    )
}

/// An independent copy of a list of nodes.
pub fn duplicate_modifiers(nodes: &Vec<Node<Modifier>>) -> (r: Vec<Node<Modifier>>)
    ensures
        modifier_views(r@) == modifier_views(nodes@),
    decreases nodes,
{
    let mut out: Vec<Node<Modifier>> = Vec::new();
    let mut at: usize = 0;
    while at < nodes.len()
        invariant
            at <= nodes.len(),
            out@.len() == at,
            forall|i: int| 0 <= i < at ==> out@[i]@ == nodes@[i]@,
        decreases nodes.len() - at,
    {
        let copy = nodes[at].duplicate();
        out.push(copy);
        at = at + 1;
    }
    assert(modifier_views(out@) =~= modifier_views(nodes@));
    out
}

/// The views of a list with one more node are those of the list, then that of the node.
pub proof fn lemma_modifier_views_push(nodes: Seq<Node<Modifier>>, node: Node<Modifier>)
    ensures
        modifier_views(nodes.push(node)) == modifier_views(nodes).push(node@),
{
    assert(modifier_views(nodes.push(node)) =~= modifier_views(nodes).push(node@));
}

impl Node<ModifiedDefinable> {
    pub open spec fn view(self) -> NodeView<ModifiedDefinableView>
        decreases self,
    {
        NodeView { kind: self.kind@, location: self.location@ }
    }

    /// An independent copy.
    pub fn duplicate(&self) -> (r: Self)
        ensures
            r@ == self@,
        decreases self,
    {
        Node { kind: self.kind.duplicate(), location: self.location.duplicate() }
    }
}

impl Modifier {
    /// The modifiers that the branches hold: a word or a call each. `marker` is the slice
    /// of the `#` that opens them.
    pub fn list(branches: &Vec<Vec<Node<Instructions>>>, marker: &LangModuleSlice) -> (r:
        LangResult<Vec<Node<Modifier>>>)
        ensures
            match modifiers_of(branch_views(branches@), 0, Seq::empty(), marker@) {
                Ok(found) => r is Ok && modifier_views(r->Ok_0@) == found,
                Err(error) => r is Err && r->Err_0@ == error,
            },
    {
        let mut words: Vec<Node<Modifier>> = Vec::new();
        assert(modifier_views(words@) =~= Seq::empty());
        let mut from: usize = 0;
        while from < branches.len()
            invariant
                from <= branches.len(),
                modifiers_of(branch_views(branches@), 0, Seq::empty(), marker@) == modifiers_of(
                    branch_views(branches@),
                    from as int,
                    modifier_views(words@),
                    marker@,
                ),
            decreases branches.len() - from,
        {
            let modifier = &branches[from];
            assert(branch_views(branches@)[from as int] == instruction_views(modifier@));
            if modifier.len() == 0 {
                return Err(unable(marker.duplicate(), "Invalid syntax in the modifiers list"));
            }
            if modifier.len() != 1 {
                return Err(
                    unable(
                        modifier[0].location.join(&modifier[modifier.len() - 1].location),
                        "Expected function",
                    ),
                );
            }
            let node = &modifier[0];
            proof {
                lemma_word_view(node.kind);
                lemma_call_view(node.kind);
                assert(instruction_views(modifier@)[0] == node@);
            }
            let kind = match &node.kind {
                Instructions::ValueOf(Expressions::Literal(ParsedLiterals::Word)) => {
                    Modifier::DefinedElement
                },
                Instructions::ValueOf(Expressions::ReturnOf(call)) => {
                    Modifier::CallReturn(call.duplicate())
                },
                _ => {
                    return Err(unable(node.location.duplicate(), "Expected function"));
                },
            };
            let word = Node { kind, location: node.location.duplicate() };
            proof {
                lemma_modifier_views_push(words@, word);
            }
            words.push(word);
            from = from + 1;
        }
        Ok(words)
    }
}

impl ModifiedDefinable {
    /// What stands between `#` and the definition, from the token at `at` on: the branches
    /// of the modifiers, and the position of the token that closes their list.
    pub(crate) fn list(parser: &Parser, at: usize) -> (r: LangResult<
        (Vec<Vec<Node<Instructions>>>, usize),
    >)
        requires
            at <= parser@.tokens.len(),
        ensures
            match modifiers_list(parser@.source(), at as int) {
                Ok((branches, close)) => r is Ok && branch_views(r->Ok_0.0@) == branches
                    && r->Ok_0.1 == close && at <= close < parser@.tokens.len(),
                Err(error) => r is Err && r->Err_0@ == error,
            },
        decreases parser@.tokens, parser@.tokens.len() - at, 33int,
    {
        proof {
            reveal(scope_rule);
            reveal(enclosed);
        }
        if at < parser.len() && matches!(parser.token(at).kind, Tokens::Object(Toggleable::Openning)) {
            return parser.enclosed(
                at + 1,
                Stopper::Object,
                Splitter::ArgSeparator,
                BehaviorSet::new(),
            );
        }
        let scope = match parser.scope(at) {
            Err(error) => {
                return Err(error);
            },
            Ok(scope) => scope,
        };
        match &scope.target {
            Some(target) => Err(unable(target.location.duplicate(), "Invalid syntax")),
            None => Ok((scope.branches, scope.close)),
        }
    }

    /// `#(modifiers) definition` and `#{modifiers} definition`, where `#` is the token at
    /// `at`.
    pub fn parse(
        parser: &Parser,
        at: usize,
        behaviors: BehaviorSet,
        previous: Option<Node<Instructions>>,
    ) -> (r: LangResult<(Node<ModifiedDefinable>, usize)>)
        ensures
            match modified_rule(parser@.source(), at as int, behaviors, previous_view(previous)) {
                Ok((found, end)) => r is Ok && r->Ok_0.0@ == found && r->Ok_0.1 == end
                    && parser@.source().forward(at as int, end),
                Err(error) => r is Err && r->Err_0@ == error,
            },
        decreases parser@.tokens, parser@.tokens.len() - at, 5int,
    {
        proof {
            reveal(modified_rule);
            reveal(expression_rule);
        }
        if at >= parser.len() {
            return Err(missing(parser.tail(), "#", None));
        }
        if !matches!(parser.token(at).kind, Tokens::Modifier) {
            return Err(parser.unexpected(at));
        }
        if previous.is_some() {
            return Err(parser.unexpected(at));
        }
        let (branches, close) = match Self::list(parser, at + 1) {
            Err(error) => {
                return Err(error);
            },
            Ok(found) => found,
        };
        let marker = parser.location(at);
        let modified_by = match Modifier::list(&branches, &marker) {
            Err(error) => {
                return Err(error);
            },
            Ok(modified_by) => modified_by,
        };
        if close + 1 >= parser.len() {
            return Err(unable(parser.tail(), "Expected function"));
        }
        let (found, end) = match Expressions::parse(parser, close + 1, behaviors, None) {
            Err(error) => {
                return Err(error);
            },
            Ok(found) => found,
        };
        let location = marker.join(&found.location);
        match found.kind {
            Expressions::Defined(definable) => {
                let definable = Node { kind: definable, location: found.location };
                let ghost definition = definable@;
                let kind = ModifiedDefinable { definable, modified_by };
                assert(kind@ == (ModifiedDefinableView {
                    definable: definition,
                    modified_by: modifier_views(modified_by@),
                }));
                Ok((Node { kind, location }, end))
            },
            _ => Err(unable(found.location, "Expected a function or variable definition")),
        }
    }
}

} // verus!
