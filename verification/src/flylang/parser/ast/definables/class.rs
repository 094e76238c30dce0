use crate::flylang::errors::LangResult;
use crate::flylang::lexer::tokens::{
    Keywords, Literals, ScopeTarget, ScopeTargetView, Toggleable, Tokens,
};
use crate::flylang::module::slice::{LangModuleSlice, SliceView};
use crate::flylang::parser::{branch_views, missing, Parser, previous_view, unable, unexpected_node};
use crate::flylang::parser::ast::{Node, NodeView};
use crate::flylang::parser::ast::definables::Definables;
use crate::flylang::parser::ast::definables::functions::{DefineFunction, DefineFunctionView};
use crate::flylang::parser::ast::definables::variables::VariableEmplacements;
use crate::flylang::parser::ast::expressions::{Expressions, ExpressionsView};
use crate::flylang::parser::ast::expressions::literals::{
    duplicate_words, lemma_word_views_push, ParsedLiterals, Word, word_views,
};
use crate::flylang::parser::ast::expressions::modified::{
    duplicate_modifiers, Modifier, modifier_views, ModifierView,
};
use crate::flylang::parser::ast::instructions::{
    duplicate_instructions, instruction_views, Instructions, InstructionsView,
};
use crate::flylang::parser::grammar::{
    class_body, class_item, class_items, class_rule, ClassItems, enclosed, Splitter, Stopper,
};
use crate::flylang::parser::mods::BehaviorSet;
use crate::flylang::parser::parsable::nothing_in;
use vstd::prelude::*;

verus! {

#[derive(Debug, Clone, Copy, PartialEq, Eq, Structural)]
pub enum ClassItemVisibility {
    Public,
    Private,
    Protected,
}

/// A method of a class, with the modifiers that stand before it.
#[derive(Debug)]
pub struct ClassMethod {
    pub name: Node<Word>,
    pub arguments: Vec<Node<Word>>,
    pub scope_target: Option<Node<ScopeTarget>>,
    pub execution: Vec<Node<Instructions>>,
    pub visibility: ClassItemVisibility,
    pub is_static: bool,
    pub modified_by: Vec<Node<Modifier>>,
}

/// What a `ClassMethod` is, mathematically.
pub struct ClassMethodView {
    pub name: NodeView<Word>,
    pub arguments: Seq<NodeView<Word>>,
    pub scope_target: Option<NodeView<ScopeTargetView>>,
    pub execution: Seq<NodeView<InstructionsView>>,
    pub visibility: ClassItemVisibility,
    pub is_static: bool,
    pub modified_by: Seq<NodeView<ModifierView>>,
}

impl ClassMethod {
    pub open spec fn view(self) -> ClassMethodView
        decreases self,
    {
        ClassMethodView {
            name: self.name@,
            arguments: word_views(self.arguments@),
            scope_target: match self.scope_target {
                Some(target) => Some(target@),
                None => None,
            },
            execution: instruction_views(self.execution@),
            visibility: self.visibility,
            is_static: self.is_static,
            modified_by: modifier_views(self.modified_by@),
        }
    }

    /// An independent copy.
    pub fn duplicate(&self) -> (r: Self)
        ensures
            r@ == self@,
        decreases self,
    {
        ClassMethod {
            name: self.name.duplicate(),
            arguments: duplicate_words(&self.arguments),
            scope_target: match &self.scope_target {
                Some(target) => Some(target.duplicate()),
                None => None,
            },
            execution: duplicate_instructions(&self.execution),
            visibility: self.visibility,
            is_static: self.is_static,
            modified_by: duplicate_modifiers(&self.modified_by),
        }
    }
}

impl ClassMethodView {
    /// Whether every part lies inside `outer`, the slice of the node that holds this, and
    /// is itself tidy.
    pub open spec fn tidy(self, outer: SliceView) -> bool
        decreases self,
    {
        &&& outer.holds(self.name.location)
        &&& forall|i: int|
            0 <= i < self.arguments.len() ==> outer.holds((#[trigger] self.arguments[i]).location)
        &&& match self.scope_target {
            Some(target) => outer.holds(target.location),
            None => true,
        }
        &&& forall|i: int|
            0 <= i < self.execution.len() ==> outer.holds((#[trigger] self.execution[i]).location)
                && self.execution[i].kind.tidy(self.execution[i].location)
        &&& forall|i: int|
            0 <= i < self.modified_by.len() ==> outer.holds((#[trigger] self.modified_by[i]).location)
                && self.modified_by[i].kind.tidy(self.modified_by[i].location)
    }
}

/// An attribute of a class, with the modifiers that stand before it.
#[derive(Debug)]
pub struct ClassAttribute {
    pub name: Node<Word>,
    pub value: Box<Node<Expressions>>,
    pub visibility: ClassItemVisibility,
    pub is_static: bool,
    pub modified_by: Vec<Node<Modifier>>,
}

/// What a `ClassAttribute` is, mathematically.
pub struct ClassAttributeView {
    pub name: NodeView<Word>,
    pub value: Box<NodeView<ExpressionsView>>,
    pub visibility: ClassItemVisibility,
    pub is_static: bool,
    pub modified_by: Seq<NodeView<ModifierView>>,
}

impl ClassAttribute {
    pub open spec fn view(self) -> ClassAttributeView
        decreases self,
    {
        ClassAttributeView {
            name: self.name@,
            value: Box::new((*self.value)@),
            visibility: self.visibility,
            is_static: self.is_static,
            modified_by: modifier_views(self.modified_by@),
        }
    }

    /// An independent copy.
    pub fn duplicate(&self) -> (r: Self)
        ensures
            r@ == self@,
        decreases self,
    {
        ClassAttribute {
            name: self.name.duplicate(),
            value: Box::new(self.value.duplicate()),
            visibility: self.visibility,
            is_static: self.is_static,
            modified_by: duplicate_modifiers(&self.modified_by),
        }
    }
}

impl ClassAttributeView {
    /// Whether every part lies inside `outer`, the slice of the node that holds this, and
    /// is itself tidy.
    pub open spec fn tidy(self, outer: SliceView) -> bool
        decreases self,
    {
        &&& outer.holds(self.name.location)
        &&& outer.holds(self.value.location) && self.value.kind.tidy(self.value.location)
        &&& forall|i: int|
            0 <= i < self.modified_by.len() ==> outer.holds((#[trigger] self.modified_by[i]).location)
                && self.modified_by[i].kind.tidy(self.modified_by[i].location)
    }
}

/// The definition of a class.
#[derive(Debug)]
pub struct DefineClass {
    pub name: Node<Word>,
    pub constructor: Option<Node<DefineFunction>>,
    pub parents: Vec<Node<Word>>,
    pub attributes: Vec<Node<ClassAttribute>>,
    pub methods: Vec<Node<ClassMethod>>,
}

/// What a `DefineClass` is, mathematically.
pub struct DefineClassView {
    pub name: NodeView<Word>,
    pub constructor: Option<NodeView<DefineFunctionView>>,
    pub parents: Seq<NodeView<Word>>,
    pub attributes: Seq<NodeView<ClassAttributeView>>,
    pub methods: Seq<NodeView<ClassMethodView>>,
}

impl DefineClass {
    pub open spec fn view(self) -> DefineClassView
        decreases self,
    {
        DefineClassView {
            name: self.name@,
            constructor: match self.constructor {
                Some(function) => Some(function@),
                None => None,
            },
            parents: word_views(self.parents@),
            attributes: attribute_views(self.attributes@),
            methods: method_views(self.methods@),
        }
    }

    /// An independent copy.
    pub fn duplicate(&self) -> (r: Self)
        ensures
            r@ == self@,
        decreases self,
    {
        DefineClass {
            name: self.name.duplicate(),
            constructor: match &self.constructor {
                Some(function) => Some(function.duplicate()),
                None => None,
            },
            parents: duplicate_words(&self.parents),
            attributes: duplicate_attributes(&self.attributes),
            methods: duplicate_methods(&self.methods),
        }
    }
}

impl DefineClassView {
    /// Whether every part lies inside `outer`, the slice of the node that holds this, and
    /// is itself tidy.
    pub open spec fn tidy(self, outer: SliceView) -> bool
        decreases self,
    {
        &&& outer.holds(self.name.location)
        &&& match self.constructor {
            Some(function) => outer.holds(function.location) && function.kind.tidy(function.location),
            None => true,
        }
        &&& forall|i: int|
            0 <= i < self.parents.len() ==> outer.holds((#[trigger] self.parents[i]).location)
        &&& forall|i: int|
            0 <= i < self.attributes.len() ==> outer.holds((#[trigger] self.attributes[i]).location)
                && self.attributes[i].kind.tidy(self.attributes[i].location)
        &&& forall|i: int|
            0 <= i < self.methods.len() ==> outer.holds((#[trigger] self.methods[i]).location)
                && self.methods[i].kind.tidy(self.methods[i].location)
    }
}

impl Node<ClassMethod> {
    pub open spec fn view(self) -> NodeView<ClassMethodView>
        decreases self,
    {
        NodeView { kind: self.kind@, location: self.location@ }
    }

    /// An independent copy.
    pub fn duplicate(&self) -> (r: Self)
        ensures
            r@ == self@,
        decreases self,
    {
        Node { kind: self.kind.duplicate(), location: self.location.duplicate() }
    }
}

impl Node<ClassAttribute> {
    pub open spec fn view(self) -> NodeView<ClassAttributeView>
        decreases self,
    {
        NodeView { kind: self.kind@, location: self.location@ }
    }

    /// An independent copy.
    pub fn duplicate(&self) -> (r: Self)
        ensures
            r@ == self@,
        decreases self,
    {
        Node { kind: self.kind.duplicate(), location: self.location.duplicate() }
    }
}

/// The views of the nodes of `nodes`, in order.
pub open spec fn attribute_views(nodes: Seq<Node<ClassAttribute>>) -> Seq<NodeView<ClassAttributeView>>
    decreases nodes,
{
    Seq::new(
        nodes.len(),
        |i: int|
            if 0 <= i < nodes.len() {
                nodes[i]@
            } else {
                arbitrary()
            },
    )
}

/// An independent copy of a list of nodes.
pub fn duplicate_attributes(nodes: &Vec<Node<ClassAttribute>>) -> (r: Vec<Node<ClassAttribute>>)
    ensures
        attribute_views(r@) == attribute_views(nodes@),
    decreases nodes,
{
    let mut out: Vec<Node<ClassAttribute>> = Vec::new();
    let mut at: usize = 0;
    while at < nodes.len()
        invariant
            at <= nodes.len(),
            out@.len() == at,
            forall|i: int| 0 <= i < at ==> out@[i]@ == nodes@[i]@,
        decreases nodes.len() - at,
    {
        let copy = nodes[at].duplicate();
        out.push(copy);
        at = at + 1;
    }
    assert(attribute_views(out@) =~= attribute_views(nodes@));
    out
}

/// The views of a list with one more node are those of the list, then that of the node.
pub proof fn lemma_attribute_views_push(nodes: Seq<Node<ClassAttribute>>, node: Node<ClassAttribute>)
    ensures
        attribute_views(nodes.push(node)) == attribute_views(nodes).push(node@),
{
    assert(attribute_views(nodes.push(node)) =~= attribute_views(nodes).push(node@));
}

/// The views of the nodes of `nodes`, in order.
pub open spec fn method_views(nodes: Seq<Node<ClassMethod>>) -> Seq<NodeView<ClassMethodView>>
    decreases nodes,
{
    Seq::new(
        nodes.len(),
        |i: int|
            if 0 <= i < nodes.len() {
                nodes[i]@
            } else {
                arbitrary()
            },
    )
}

/// An independent copy of a list of nodes.
pub fn duplicate_methods(nodes: &Vec<Node<ClassMethod>>) -> (r: Vec<Node<ClassMethod>>)
    ensures
        method_views(r@) == method_views(nodes@),
    decreases nodes,
{
    let mut out: Vec<Node<ClassMethod>> = Vec::new();
    let mut at: usize = 0;
    while at < nodes.len()
        invariant
            at <= nodes.len(),
            out@.len() == at,
            forall|i: int| 0 <= i < at ==> out@[i]@ == nodes@[i]@,
        decreases nodes.len() - at,
    {
        let copy = nodes[at].duplicate();
        out.push(copy);
        at = at + 1;
    }
    assert(method_views(out@) =~= method_views(nodes@));
    out
}

/// The views of a list with one more node are those of the list, then that of the node.
pub proof fn lemma_method_views_push(nodes: Seq<Node<ClassMethod>>, node: Node<ClassMethod>)
    ensures
        method_views(nodes.push(node)) == method_views(nodes).push(node@),
{
    assert(method_views(nodes.push(node)) =~= method_views(nodes).push(node@));
}

impl Node<DefineClass> {
    pub open spec fn view(self) -> NodeView<DefineClassView>
        decreases self,
    {
        NodeView { kind: self.kind@, location: self.location@ }
    }

    /// An independent copy.
    pub fn duplicate(&self) -> (r: Self)
        ensures
            r@ == self@,
        decreases self,
    {
        Node { kind: self.kind.duplicate(), location: self.location.duplicate() }
    }
}

/// What an instruction defines, with the modifiers that stand before it, is what its view
/// does.
pub proof fn lemma_item_view(kind: Instructions)
    ensures
        match kind {
            Instructions::ValueOf(Expressions::Defined(defined)) => class_item(
                crate::flylang::parser::grammar::node(kind@, arbitrary()),
            ) == Some((defined@, Seq::<NodeView<ModifierView>>::empty())),
            Instructions::ValueOf(Expressions::Modified(modified)) => class_item(
                crate::flylang::parser::grammar::node(kind@, arbitrary()),
            ) == Some((modified@.definable.kind, modified@.modified_by)),
            _ => class_item(crate::flylang::parser::grammar::node(kind@, arbitrary())) is None,
        },
{
    match kind {
        Instructions::ValueOf(expression) => {
            match expression {
                Expressions::Defined(defined) => {},
                Expressions::Modified(modified) => {},
                _ => {},
            }
        },
        _ => {},
    }
}

/// What a class is made of, as far as its branches are read.
pub struct ClassParts {
    pub constructor: Option<Node<DefineFunction>>,
    pub parents: Vec<Node<Word>>,
    pub attributes: Vec<Node<ClassAttribute>>,
    pub methods: Vec<Node<ClassMethod>>,
    pub body_processed: bool,
}

impl ClassParts {
    pub open spec fn view(self) -> ClassItems {
        ClassItems {
            constructor: match self.constructor {
                Some(constructor) => Some(constructor@),
                None => None,
            },
            parents: word_views(self.parents@),
            attributes: attribute_views(self.attributes@),
            methods: method_views(self.methods@),
            body_processed: self.body_processed,
        }
    }

    /// The parts of a class of which nothing is read yet.
    pub fn new() -> (r: Self)
        ensures
            r@ == (ClassItems {
                constructor: None,
                parents: Seq::empty(),
                attributes: Seq::empty(),
                methods: Seq::empty(),
                body_processed: false,
            }),
    {
        let r = ClassParts {
            constructor: None,
            parents: Vec::new(),
            attributes: Vec::new(),
            methods: Vec::new(),
            body_processed: false,
        };
        assert(word_views(r.parents@) =~= Seq::empty());
        assert(attribute_views(r.attributes@) =~= Seq::empty());
        assert(method_views(r.methods@) =~= Seq::empty());
        r
    }

    /// Reads the body `branch` of a class: its methods and its attributes join the parts.
    pub fn body(self, branch: &Vec<Node<Instructions>>) -> (r: LangResult<ClassParts>)
        ensures
            match class_body(instruction_views(branch@), 0, self@) {
                Ok(items) => r is Ok && r->Ok_0@ == items,
                Err(error) => r is Err && r->Err_0@ == error,
            },
    {
        let ghost first = self@;
        let mut parts = self;
        let mut from: usize = 0;
        while from < branch.len()
            invariant
                from <= branch.len(),
                first == self@,
                class_body(instruction_views(branch@), 0, first) == class_body(
                    instruction_views(branch@),
                    from as int,
                    parts@,
                ),
            decreases branch.len() - from,
        {
            let instruction = &branch[from];
            proof {
                lemma_item_view(instruction.kind);
                assert(instruction_views(branch@)[from as int] == instruction@);
            }
            let (defined, modified_by) = match &instruction.kind {
                Instructions::ValueOf(Expressions::Defined(defined)) => {
                    let nothing: Vec<Node<Modifier>> = Vec::new();
                    assert(modifier_views(nothing@) =~= Seq::empty());
                    (defined, nothing)
                },
                Instructions::ValueOf(Expressions::Modified(modified)) => {
                    assert(modified@.definable.kind == modified.definable.kind@);
                    (&modified.definable.kind, duplicate_modifiers(&modified.modified_by))
                },
                _ => {
                    return Err(unexpected_node(instruction.duplicate()));
                },
            };
            match defined {
                Definables::Function(method) => {
                    let name = match &method.name {
                        None => {
                            return Err(
                                unable(instruction.location.duplicate(), "Methods must have a name"),
                            );
                        },
                        Some(name) => name.duplicate(),
                    };
                    let ghost modifiers = modifier_views(modified_by@);
                    let kind = ClassMethod {
                        name,
                        arguments: duplicate_words(&method.arguments),
                        scope_target: match &method.scope_target {
                            Some(target) => Some(target.duplicate()),
                            None => None,
                        },
                        execution: duplicate_instructions(&method.execution),
                        visibility: ClassItemVisibility::Public,
                        is_static: false,
                        modified_by,
                    };
                    assert(kind@ == (ClassMethodView {
                        name: method@.name->Some_0,
                        arguments: method@.arguments,
                        scope_target: method@.scope_target,
                        execution: method@.execution,
                        visibility: ClassItemVisibility::Public,
                        is_static: false,
                        modified_by: modifiers,
                    }));
                    let node = Node { kind, location: instruction.location.duplicate() };
                    proof {
                        lemma_method_views_push(parts.methods@, node);
                    }
                    parts.methods.push(node);
                },
                Definables::Variable(attribute) => {
                    assert(attribute@.emplacement.kind == attribute.emplacement.kind@);
                    if !matches!(attribute.emplacement.kind, VariableEmplacements::Scope) {
                        return Err(
                            unable(
                                attribute.emplacement.location.duplicate(),
                                "Invalid attribute name",
                            ),
                        );
                    }
                    let ghost modifiers = modifier_views(modified_by@);
                    let kind = ClassAttribute {
                        name: Node {
                            kind: Word,
                            location: attribute.emplacement.location.duplicate(),
                        },
                        value: Box::new((&*attribute.value).duplicate()),
                        visibility: ClassItemVisibility::Public,
                        is_static: false,
                        modified_by,
                    };
                    assert(kind@ == (ClassAttributeView {
                        name: crate::flylang::parser::grammar::node(
                            Word,
                            attribute@.emplacement.location,
                        ),
                        value: attribute@.value,
                        visibility: ClassItemVisibility::Public,
                        is_static: false,
                        modified_by: modifiers,
                    }));
                    let node = Node { kind, location: instruction.location.duplicate() };
                    proof {
                        lemma_attribute_views_push(parts.attributes@, node);
                    }
                    parts.attributes.push(node);
                },
                _ => {
                    return Err(unexpected_node(instruction.duplicate()));
                },
            }
            from = from + 1;
        }
        Ok(parts)
    }

    /// Reads the branches of the scope of a class, which `location` covers.
    pub fn items(branches: &Vec<Vec<Node<Instructions>>>, location: &LangModuleSlice) -> (r:
        LangResult<ClassParts>)
        ensures
            match class_items(
                branch_views(branches@),
                0,
                ClassItems {
                    constructor: None,
                    parents: Seq::empty(),
                    attributes: Seq::empty(),
                    methods: Seq::empty(),
                    body_processed: false,
                },
                location@,
            ) {
                Ok(items) => r is Ok && r->Ok_0@ == items,
                Err(error) => r is Err && r->Err_0@ == error,
            },
    {
        let mut parts = ClassParts::new();
        let ghost first = parts@;
        let mut from: usize = 0;
        while from < branches.len()
            invariant
                from <= branches.len(),
                first == (ClassItems {
                    constructor: None,
                    parents: Seq::empty(),
                    attributes: Seq::empty(),
                    methods: Seq::empty(),
                    body_processed: false,
                }),
                class_items(branch_views(branches@), 0, first, location@) == class_items(
                    branch_views(branches@),
                    from as int,
                    parts@,
                    location@,
                ),
            decreases branches.len() - from,
        {
            let branch = &branches[from];
            assert(branch_views(branches@)[from as int] == instruction_views(branch@));
            let mut body = true;
            if branch.len() == 1 {
                match &branch[0].kind {
                    Instructions::ValueOf(Expressions::Defined(Definables::Function(defined))) => {
                        // constructor
                        if parts.constructor.is_none() {
                            parts.constructor = Some(
                                Node {
                                    kind: defined.duplicate(),
                                    location: branch[0].location.duplicate(),
                                },
                            );
                            body = false;
                        }
                    },
                    Instructions::ValueOf(Expressions::Literal(ParsedLiterals::Word)) => {
                        // parent
                        if parts.constructor.is_some() || parts.body_processed {
                            return Err(unexpected_node(branch[0].duplicate()));
                        }
                        let parent = Node { kind: Word, location: branch[0].location.duplicate() };
                        proof {
                            lemma_word_views_push(parts.parents@, parent);
                        }
                        parts.parents.push(parent);
                        body = false;
                    },
                    _ => {},
                }
            }
            if body {
                if parts.body_processed {
                    return Err(
                        unable(
                            if branch.len() == 0 {
                                location.duplicate()
                            } else {
                                branch[0].location.duplicate()
                            },
                            "Cannot declare multiple body",
                        ),
                    );
                }
                parts = match parts.body(branch) {
                    Err(error) => {
                        return Err(error);
                    },
                    Ok(filled) => filled,
                };
                parts.body_processed = true;
            }
            from = from + 1;
        }
        Ok(parts)
    }
}

impl DefineClass {
    /// The definition of a class, where `cs` is the token at `at`.
    pub fn parse(parser: &Parser, at: usize, previous: Option<Node<Instructions>>) -> (r:
        LangResult<(Node<DefineClass>, usize)>)
        ensures
            match class_rule(parser@.source(), at as int, previous_view(previous)) {
                Ok((found, end)) => r is Ok && r->Ok_0.0@ == found && r->Ok_0.1 == end
                    && parser@.source().forward(at as int, end),
                Err(error) => r is Err && r->Err_0@ == error,
            },
        decreases parser@.tokens, parser@.tokens.len() - at, 5int,
    {
        proof {
            reveal(class_rule);
            reveal(enclosed);
        }
        let len = parser.len();
        if at >= len {
            return Err(missing(parser.tail(), "cs", None));
        }
        if !matches!(parser.token(at).kind, Tokens::Keyword(Keywords::Cs)) {
            return Err(parser.unexpected(at));
        }
        if previous.is_some() {
            return Err(parser.unexpected(at));
        }
        if at + 1 >= len {
            return Err(missing(parser.location(at), "class name", None));
        }
        let token = parser.token(at + 1);
        let name = if matches!(token.kind, Tokens::Literal(Literals::Word)) {
            Node { kind: Word, location: token.location.duplicate() }
        } else {
            return Err(parser.unexpected(at + 1));
        };
        if at + 2 >= len || !matches!(
            parser.token(at + 2).kind,
            Tokens::Block(Toggleable::Openning)
        ) {
            return Err(missing(parser.place(at + 2), "'('", None));
        }
        let (branches, close) = match parser.enclosed(
            at + 3,
            Stopper::Block,
            Splitter::ArgSeparator,
            BehaviorSet::new(),
        ) {
            Err(error) => {
                return Err(error);
            },
            Ok(found) => found,
        };
        let location = parser.location(at).join(&parser.token(close).location);
        let parts = if nothing_in(&branches) {
            ClassParts::new()
        } else {
            match ClassParts::items(&branches, &location) {
                Err(error) => {
                    return Err(error);
                },
                Ok(parts) => parts,
            }
        };
        Ok(
            (
                Node {
                    kind: DefineClass {
                        name,
                        constructor: parts.constructor,
                        parents: parts.parents,
                        attributes: parts.attributes,
                        methods: parts.methods,
                    },
                    location,
                },
                close + 1,
            ),
        )
    }
}

} // verus!
