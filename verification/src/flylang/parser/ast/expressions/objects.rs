use crate::flylang::errors::LangResult;
use crate::flylang::lexer::tokens::{Toggleable, Tokens, VarDefinition};
use crate::flylang::module::slice::{LangModuleSlice, SliceView};
use crate::flylang::parser::{branch_views, missing, Parser, previous_view, unable, unexpected_node};
use crate::flylang::parser::ast::{Node, NodeView};
use crate::flylang::parser::ast::definables::Definables;
use crate::flylang::parser::ast::definables::variables::{DefineVariable, VariableEmplacements};
use crate::flylang::parser::ast::expressions::{
    duplicate_expressions, expression_views, Expressions, ExpressionsView,
    lemma_expression_views_push,
};
use crate::flylang::parser::ast::expressions::literals::{ParsedLiterals, Word};
use crate::flylang::parser::ast::expressions::property::Property;
use crate::flylang::parser::ast::instructions::{instruction_views, Instructions};
use crate::flylang::parser::grammar::{
    enclosed, entry_of, object_items, object_rule, Splitter, Stopper,
};
use crate::flylang::parser::mods::BehaviorSet;
use crate::flylang::parser::parsable::{lemma_defined_view, nothing_in};
use vstd::prelude::*;

verus! {

/// An entry of a structure: its key and its value.
#[derive(Debug)]
pub struct StructureEntry {
    pub key: Node<Expressions>,
    pub value: Node<Expressions>,
}

/// What a `StructureEntry` is, mathematically.
pub struct StructureEntryView {
    pub key: NodeView<ExpressionsView>,
    pub value: NodeView<ExpressionsView>,
}

impl StructureEntry {
    pub open spec fn view(self) -> StructureEntryView
        decreases self,
    {
        StructureEntryView {
            key: self.key@,
            value: self.value@,
        }
    }

    /// An independent copy.
    pub fn duplicate(&self) -> (r: Self)
        ensures
            r@ == self@,
        decreases self,
    {
        StructureEntry {
            key: self.key.duplicate(),
            value: self.value.duplicate(),
        }
    }
}

impl StructureEntryView {
    /// Whether every part lies inside `outer`, the slice of the node that holds this, and
    /// is itself tidy.
    pub open spec fn tidy(self, outer: SliceView) -> bool
        decreases self,
    {
        &&& outer.holds(self.key.location) && self.key.kind.tidy(self.key.location)
        &&& outer.holds(self.value.location) && self.value.kind.tidy(self.value.location)
    }
}

/// A structure literal.
#[derive(Debug)]
pub struct Structure {
    pub entries: Vec<Node<StructureEntry>>,
}

/// What a `Structure` is, mathematically.
pub struct StructureView {
    pub entries: Seq<NodeView<StructureEntryView>>,
}

impl Structure {
    pub open spec fn view(self) -> StructureView
        decreases self,
    {
        StructureView {
            entries: entry_views(self.entries@),
        }
    }

    /// An independent copy.
    pub fn duplicate(&self) -> (r: Self)
        ensures
            r@ == self@,
        decreases self,
    {
        Structure {
            entries: duplicate_entrys(&self.entries),
        }
    }
}

impl StructureView {
    /// Whether every part lies inside `outer`, the slice of the node that holds this, and
    /// is itself tidy.
    pub open spec fn tidy(self, outer: SliceView) -> bool
        decreases self,
    {
        &&& forall|i: int|
            0 <= i < self.entries.len() ==> outer.holds((#[trigger] self.entries[i]).location)
                && self.entries[i].kind.tidy(self.entries[i].location)
    }
}

/// An array literal.
#[derive(Debug)]
pub struct Array {
    pub entries: Vec<Node<Expressions>>,
}

/// What an `Array` is, mathematically.
pub struct ArrayView {
    pub entries: Seq<NodeView<ExpressionsView>>,
}

impl Array {
    pub open spec fn view(self) -> ArrayView
        decreases self,
    {
        ArrayView {
            entries: expression_views(self.entries@),
        }
    }

    /// An independent copy.
    pub fn duplicate(&self) -> (r: Self)
        ensures
            r@ == self@,
        decreases self,
    {
        Array {
            entries: duplicate_expressions(&self.entries),
        }
    }
}

impl ArrayView {
    /// Whether every part lies inside `outer`, the slice of the node that holds this, and
    /// is itself tidy.
    pub open spec fn tidy(self, outer: SliceView) -> bool
        decreases self,
    {
        &&& forall|i: int|
            0 <= i < self.entries.len() ==> outer.holds((#[trigger] self.entries[i]).location)
                && self.entries[i].kind.tidy(self.entries[i].location)
    }
}

// Because object and array has similar syntax, we parse them in the same place
/// What braces hold: a structure or an array.
#[derive(Debug)]
pub enum PrimaryObject {
    Struct(Structure),
    Arr(Array),
}

/// What a `PrimaryObject` is, mathematically.
pub enum PrimaryObjectView {
    Struct(StructureView),
    Arr(ArrayView),
}

impl PrimaryObject {
    pub open spec fn view(self) -> PrimaryObjectView
        decreases self,
    {
        match self {
            PrimaryObject::Struct(inner) => PrimaryObjectView::Struct(inner@),
            PrimaryObject::Arr(inner) => PrimaryObjectView::Arr(inner@),
        }
    }

    /// An independent copy.
    pub fn duplicate(&self) -> (r: Self)
        ensures
            r@ == self@,
        decreases self,
    {
        match self {
            PrimaryObject::Struct(inner) => PrimaryObject::Struct(inner.duplicate()),
            PrimaryObject::Arr(inner) => PrimaryObject::Arr(inner.duplicate()),
        }
    }
}

impl PrimaryObjectView {
    /// Whether every part lies inside `outer`, the slice of the node that holds this, and
    /// is itself tidy.
    pub open spec fn tidy(self, outer: SliceView) -> bool
        decreases self,
    {
        match self {
            PrimaryObjectView::Struct(inner) => inner.tidy(outer),
            PrimaryObjectView::Arr(inner) => inner.tidy(outer),
        }
    }
}

impl Node<StructureEntry> {
    pub open spec fn view(self) -> NodeView<StructureEntryView>
        decreases self,
    {
        NodeView { kind: self.kind@, location: self.location@ }
    }

    /// An independent copy.
    pub fn duplicate(&self) -> (r: Self)
        ensures
            r@ == self@,
        decreases self,
    {
        Node { kind: self.kind.duplicate(), location: self.location.duplicate() }
    }
}

/// The views of the nodes of `nodes`, in order.
pub open spec fn entry_views(nodes: Seq<Node<StructureEntry>>) -> Seq<NodeView<StructureEntryView>>
    decreases nodes,
{
    Seq::new(
        nodes.len(),
        |i: int|
            if 0 <= i < nodes.len() {
                nodes[i]@
            } else {
                arbitrary()
            },
    )
}

/// An independent copy of a list of nodes.
pub fn duplicate_entrys(nodes: &Vec<Node<StructureEntry>>) -> (r: Vec<Node<StructureEntry>>)
    ensures
        entry_views(r@) == entry_views(nodes@),
    decreases nodes,
{
    let mut out: Vec<Node<StructureEntry>> = Vec::new();
    let mut at: usize = 0;
    while at < nodes.len()
        invariant
            at <= nodes.len(),
            out@.len() == at,
            forall|i: int| 0 <= i < at ==> out@[i]@ == nodes@[i]@,
        decreases nodes.len() - at,
    {
        let copy = nodes[at].duplicate();
        out.push(copy);
        at = at + 1;
    }
    assert(entry_views(out@) =~= entry_views(nodes@));
    out
}

/// The views of a list with one more node are those of the list, then that of the node.
pub proof fn lemma_entry_views_push(nodes: Seq<Node<StructureEntry>>, node: Node<StructureEntry>)
    ensures
        entry_views(nodes.push(node)) == entry_views(nodes).push(node@),
{
    assert(entry_views(nodes.push(node)) =~= entry_views(nodes).push(node@));
}

impl Node<PrimaryObject> {
    pub open spec fn view(self) -> NodeView<PrimaryObjectView>
        decreases self,
    {
        NodeView { kind: self.kind@, location: self.location@ }
    }

    /// An independent copy.
    pub fn duplicate(&self) -> (r: Self)
        ensures
            r@ == self@,
        decreases self,
    {
        Node { kind: self.kind.duplicate(), location: self.location.duplicate() }
    }
}

impl StructureEntry {
    /// The entry of a structure that the definition of a variable makes.
    pub fn try_from(value: &DefineVariable) -> (r: LangResult<Self>)
        ensures
            match entry_of(value@) {
                Ok(entry) => r is Ok && r->Ok_0@ == entry,
                Err(error) => r is Err && r->Err_0@ == error,
            },
            r is Ok ==> !value.readonly,
    {
        if value.readonly {
            return Err(
                unable(
                    value.emplacement.location.join(&value.value.location),
                    "Invalid character. \"::\" cannot be used for structure items.",
                ),
            );
        }
        let key = match &value.emplacement.kind {
            VariableEmplacements::Property(prop) => {
                return Err(
                    unexpected_node(
                        Node {
                            kind: Instructions::ValueOf(Expressions::Read(prop.duplicate())),
                            location: value.emplacement.location.duplicate(),
                        },
                    ),
                );
            },
            VariableEmplacements::Scope => Expressions::Literal(ParsedLiterals::Word),
            VariableEmplacements::Any(expr) => (&**expr).duplicate(),
        };
        Ok(
            Self {
                key: Node { kind: key, location: value.emplacement.location.duplicate() },
                value: (&*value.value).duplicate(),
            },
        )
    }
}

impl PrimaryObject {
    /// The items of an object, given the branches between its braces, which `location`
    /// covers.
    pub fn items(branches: &Vec<Vec<Node<Instructions>>>, location: &LangModuleSlice) -> (r:
        LangResult<PrimaryObject>)
        ensures
            match object_items(
                branch_views(branches@),
                0,
                PrimaryObjectView::Struct(StructureView { entries: Seq::empty() }),
                location@,
            ) {
                Ok(found) => r is Ok && r->Ok_0@ == found,
                Err(error) => r is Err && r->Err_0@ == error,
            },
    {
        let nothing: Vec<Node<StructureEntry>> = Vec::new();
        assert(entry_views(nothing@) =~= Seq::empty());
        let mut result = PrimaryObject::Struct(Structure { entries: nothing });
        let ghost first = result@;
        let mut index: usize = 0;
        while index < branches.len()
            invariant
                index <= branches.len(),
                first == PrimaryObjectView::Struct(StructureView { entries: Seq::empty() }),
                object_items(branch_views(branches@), 0, first, location@) == object_items(
                    branch_views(branches@),
                    index as int,
                    result@,
                    location@,
                ),
            decreases branches.len() - index,
        {
            let branch = &branches[index];
            assert(branch_views(branches@)[index as int] == instruction_views(branch@));
            if branch.len() != 1 {
                return Err(
                    unable(location.duplicate(), "Expected 1 single expression per object's item"),
                );
            }
            let instruction = &branch[0];
            let expression = match &instruction.kind {
                Instructions::ValueOf(expression) => expression,
                _ => {
                    return Err(unexpected_node(instruction.duplicate()));
                },
            };
            proof {
                lemma_defined_view(instruction.kind);
                assert(instruction_views(branch@)[0] == instruction@);
            }
            match expression {
                Expressions::Defined(Definables::Variable(variable)) if !matches!(
                    variable.emplacement.kind,
                    VariableEmplacements::Property(_)
                ) => {
                    assert(variable@.emplacement.kind == variable.emplacement.kind@);
                    match result {
                        PrimaryObject::Struct(mut structure) => {
                            if index == 0 || structure.entries.len() > 0 {
                                let entry = match StructureEntry::try_from(variable) {
                                    Err(error) => {
                                        return Err(error);
                                    },
                                    Ok(entry) => Node {
                                        kind: entry,
                                        location: instruction.location.duplicate(),
                                    },
                                };
                                proof {
                                    lemma_entry_views_push(structure.entries@, entry);
                                }
                                structure.entries.push(entry);
                                result = PrimaryObject::Struct(structure);
                            } else {
                                return Err(unexpected_node(instruction.duplicate()));
                            }
                        },
                        _ => {
                            return Err(unexpected_node(instruction.duplicate()));
                        },
                    }
                },
                _ => {
                    proof {
                        match expression {
                            Expressions::Defined(Definables::Variable(variable)) => {
                                assert(variable@.emplacement.kind == variable.emplacement.kind@);
                            },
                            _ => {},
                        }
                    }
                    let entry = Node {
                        kind: expression.duplicate(),
                        location: instruction.location.duplicate(),
                    };
                    match result {
                        PrimaryObject::Struct(_) => {
                            if index != 0 {
                                return Err(unexpected_node(instruction.duplicate()));
                            }
                            let mut entries: Vec<Node<Expressions>> = Vec::new();
                            proof {
                                assert(expression_views(entries@) =~= Seq::empty());
                                lemma_expression_views_push(entries@, entry);
                                assert(Seq::<NodeView<ExpressionsView>>::empty().push(entry@)
                                    =~= seq![entry@]);
                            }
                            entries.push(entry);
                            result = PrimaryObject::Arr(Array { entries });
                        },
                        PrimaryObject::Arr(mut array) => {
                            proof {
                                lemma_expression_views_push(array.entries@, entry);
                            }
                            array.entries.push(entry);
                            result = PrimaryObject::Arr(array);
                        },
                    }
                },
            }
            index = index + 1;
        }
        Ok(result)
    }

    /// `{items}`, where `{` is the token at `at`.
    pub fn parse(parser: &Parser, at: usize, previous: Option<Node<Instructions>>) -> (r:
        LangResult<(Node<PrimaryObject>, usize)>)
        ensures
            match object_rule(parser@.source(), at as int, previous_view(previous)) {
                Ok((found, end)) => r is Ok && r->Ok_0.0@ == found && r->Ok_0.1 == end
                    && parser@.source().forward(at as int, end),
                Err(error) => r is Err && r->Err_0@ == error,
            },
        decreases parser@.tokens, parser@.tokens.len() - at, 5int,
    {
        proof {
            reveal(object_rule);
            reveal(enclosed);
        }
        let len = parser.len();
        if at >= len {
            return Err(missing(parser.tail(), "{", None));
        }
        if !matches!(parser.token(at).kind, Tokens::Object(Toggleable::Openning)) {
            return Err(parser.unexpected(at));
        }
        if previous.is_some() {
            return Err(parser.unexpected(at));
        }
        if len - at > 2 && matches!(parser.token(at + 1).kind, Tokens::VarDef(VarDefinition::Normal))
            && matches!(parser.token(at + 2).kind, Tokens::Object(Toggleable::Closing)) {
            // Empty structure
            let nothing: Vec<Node<StructureEntry>> = Vec::new();
            assert(entry_views(nothing@) =~= Seq::empty());
            return Ok(
                (
                    Node {
                        kind: PrimaryObject::Struct(Structure { entries: nothing }),
                        location: parser.location(at).join(&parser.token(at + 2).location),
                    },
                    at + 3,
                ),
            );
        }
        let (branches, close) = match parser.enclosed(
            at + 1,
            Stopper::Object,
            Splitter::ArgSeparator,
            BehaviorSet { lazy: false, any: true, any_recursive: false },
        ) {
            Err(error) => {
                return Err(error);
            },
            Ok(found) => found,
        };
        let location = parser.location(at).join(&parser.token(close).location);
        let found = if nothing_in(&branches) {
            // Empty array
            let nothing: Vec<Node<Expressions>> = Vec::new();
            assert(expression_views(nothing@) =~= Seq::empty());
            PrimaryObject::Arr(Array { entries: nothing })
        } else {
            match Self::items(&branches, &location) {
                Err(error) => {
                    return Err(error);
                },
                Ok(found) => found,
            }
        };
        Ok((Node { kind: found, location }, close + 1))
    }
}

} // verus!
